//! What holds of the traversal, whatever the rule.
use vstd::prelude::*;

use crate::rewrite::{
    lemma_rewritten_list, rewritten, rewritten_list, rewritten_opt, rewritten_parts, Rewriting,
};
use crate::syntax::Tree;
use crate::walk::{children_of, opt_part};

verus! {

broadcast use lemma_rewritten_list;

/// The rule changes nothing in a quiet state, and a quiet state leads to quiet states alone.
pub open spec fn quiet_rule<R: Rewriting>(rule: R, quiet: spec_fn(bool) -> bool) -> bool {
    forall|state: bool, t: Tree|
        #![trigger rule.left(state, t)]
        #![trigger rule.entered(state, t)]
        quiet(state) ==> rule.left(state, t) == t && quiet(rule.entered(state, t)) && quiet(
            rule.entered_with(state),
        )
}

/// A rule that changes nothing by itself changes nothing as a whole.
pub proof fn law_quiet<R: Rewriting>(rule: R, quiet: spec_fn(bool) -> bool, state: bool, t: Tree)
    requires
        quiet_rule(rule, quiet),
        quiet(state),
    ensures
        rewritten(rule, state, t) == t,
    decreases t, 1int,
{
    let inner = rule.entered(state, t);
    assert(rule.left(state, t) == t);
    lemma_quiet_parts(rule, quiet, inner, t);
}

/// A rule that changes nothing by itself changes nothing in a list.
pub proof fn law_quiet_list<R: Rewriting>(
    rule: R,
    quiet: spec_fn(bool) -> bool,
    state: bool,
    list: Seq<Tree>,
)
    requires
        quiet_rule(rule, quiet),
        quiet(state),
    ensures
        rewritten_list(rule, state, list) == list,
    decreases list, 0int,
{
    if list.len() > 0 {
        law_quiet_list(rule, quiet, state, list.drop_last());
        law_quiet(rule, quiet, state, list.last());
    }
    assert(rewritten_list(rule, state, list) =~= list);
}

proof fn lemma_quiet_opt<R: Rewriting>(
    rule: R,
    quiet: spec_fn(bool) -> bool,
    state: bool,
    part: Option<Box<Tree>>,
)
    requires
        quiet_rule(rule, quiet),
        quiet(state),
    ensures
        rewritten_opt(rule, state, part) == part,
    decreases part, 0int,
{
    match part {
        Some(inner) => {
            law_quiet(rule, quiet, state, *inner);
        },
        None => {},
    }
}

proof fn lemma_quiet_parts<R: Rewriting>(
    rule: R,
    quiet: spec_fn(bool) -> bool,
    state: bool,
    t: Tree,
)
    requires
        quiet_rule(rule, quiet),
        quiet(state),
    ensures
        rewritten_parts(rule, state, t) == t,
    decreases t, 0int,
{
    match t {
        Tree::Array { elems, .. } => {
            law_quiet_list(rule, quiet, state, elems);
        },
        Tree::Arg { expr, .. } => {
            law_quiet(rule, quiet, state, *expr);
        },
        Tree::Call { callee, args, types, .. } => {
            law_quiet(rule, quiet, state, *callee);
            law_quiet_list(rule, quiet, state, args);
            law_quiet_list(rule, quiet, state, types);
        },
        Tree::Member { obj, prop, .. } => {
            law_quiet(rule, quiet, state, *obj);
            law_quiet(rule, quiet, state, *prop);
        },
        Tree::Computed { expr, .. } => {
            law_quiet(rule, quiet, state, *expr);
        },
        Tree::SuperProp { prop, .. } => {
            law_quiet(rule, quiet, state, *prop);
        },
        Tree::OptChain { base, .. } => {
            law_quiet(rule, quiet, state, *base);
        },
        Tree::Assign { left, right, .. } => {
            law_quiet(rule, quiet, state, *left);
            law_quiet(rule, quiet, state, *right);
        },
        Tree::Update { arg, .. } => {
            law_quiet(rule, quiet, state, *arg);
        },
        Tree::Unary { arg, .. } => {
            law_quiet(rule, quiet, state, *arg);
        },
        Tree::Bin { left, right, .. } => {
            law_quiet(rule, quiet, state, *left);
            law_quiet(rule, quiet, state, *right);
        },
        Tree::Paren { expr, .. } => {
            law_quiet(rule, quiet, state, *expr);
        },
        Tree::Typed { expr, types, .. } => {
            law_quiet(rule, quiet, state, *expr);
            law_quiet_list(rule, quiet, state, types);
        },
        Tree::FnExpr { function, .. } => {
            law_quiet(rule, quiet, state, *function);
        },
        Tree::ClassExpr { class, .. } => {
            law_quiet(rule, quiet, state, *class);
        },
        Tree::Arrow { params, body, types, .. } => {
            law_quiet_list(rule, quiet, state, params);
            law_quiet(rule, quiet, state, *body);
            law_quiet_list(rule, quiet, state, types);
        },
        Tree::Function { this_param, params, decorators, body, types, .. } => {
            law_quiet_list(rule, quiet, state, this_param);
            law_quiet_list(rule, quiet, state, params);
            law_quiet_list(rule, quiet, state, decorators);
            lemma_quiet_opt(rule, quiet, state, body);
            law_quiet_list(rule, quiet, state, types);
        },
        Tree::Param { decorators, pat, .. } => {
            law_quiet_list(rule, quiet, state, decorators);
            law_quiet(rule, quiet, state, *pat);
        },
        Tree::FunctionBody { stmts, .. } => {
            law_quiet_list(rule, quiet, state, stmts);
        },
        Tree::Constructor { key, params, body, .. } => {
            law_quiet(rule, quiet, state, *key);
            law_quiet_list(rule, quiet, state, params);
            lemma_quiet_opt(rule, quiet, state, body);
        },
        Tree::Field { key, value, types, decorators, .. } => {
            law_quiet(rule, quiet, state, *key);
            lemma_quiet_opt(rule, quiet, state, value);
            law_quiet_list(rule, quiet, state, types);
            law_quiet_list(rule, quiet, state, decorators);
        },
        Tree::StaticBlock { body, .. } => {
            law_quiet(rule, quiet, state, *body);
        },
        Tree::Accessor { key, function, .. } => {
            law_quiet(rule, quiet, state, *key);
            law_quiet(rule, quiet, state, *function);
        },
        Tree::PatIdent { types, .. } => {
            law_quiet_list(rule, quiet, state, types);
        },
        Tree::PatArray { elems, types, .. } => {
            law_quiet_list(rule, quiet, state, elems);
            law_quiet_list(rule, quiet, state, types);
        },
        Tree::PatObject { props, types, .. } => {
            law_quiet_list(rule, quiet, state, props);
            law_quiet_list(rule, quiet, state, types);
        },
        Tree::PatAssign { left, right, .. } => {
            law_quiet(rule, quiet, state, *left);
            law_quiet(rule, quiet, state, *right);
        },
        Tree::PatRest { arg, types, .. } => {
            law_quiet(rule, quiet, state, *arg);
            law_quiet_list(rule, quiet, state, types);
        },
        Tree::PatProp { key, value } => {
            law_quiet(rule, quiet, state, *key);
            law_quiet(rule, quiet, state, *value);
        },
        Tree::PatShorthand { types, value, .. } => {
            law_quiet_list(rule, quiet, state, types);
            lemma_quiet_opt(rule, quiet, state, value);
        },
        Tree::ExprStmt { expr, .. } => {
            law_quiet(rule, quiet, state, *expr);
        },
        Tree::VarDecl { decls, .. } => {
            law_quiet_list(rule, quiet, state, decls);
        },
        Tree::Declarator { name, init, .. } => {
            law_quiet(rule, quiet, state, *name);
            lemma_quiet_opt(rule, quiet, state, init);
        },
        Tree::FnDecl { function, .. } => {
            law_quiet(rule, quiet, state, *function);
        },
        Tree::ClassDecl { class, .. } => {
            law_quiet(rule, quiet, state, *class);
        },
        Tree::Block { stmts, .. } => {
            law_quiet_list(rule, quiet, state, stmts);
        },
        Tree::SwitchCase { test, cons, .. } => {
            lemma_quiet_opt(rule, quiet, state, test);
            law_quiet_list(rule, quiet, state, cons);
        },
        Tree::With { obj, body, .. } => {
            law_quiet(rule, quiet, state, *obj);
            assert(rule.left(state, t) == t);
            law_quiet(rule, quiet, rule.entered_with(state), *body);
        },
        Tree::ForEach { left, right, body, .. } => {
            law_quiet(rule, quiet, state, *left);
            law_quiet(rule, quiet, state, *right);
            law_quiet(rule, quiet, state, *body);
        },
        Tree::Catch { param, body, .. } => {
            lemma_quiet_opt(rule, quiet, state, param);
            law_quiet(rule, quiet, state, *body);
        },
        Tree::Import { specifiers, rest, .. } => {
            law_quiet_list(rule, quiet, state, specifiers);
            law_quiet_list(rule, quiet, state, rest);
        },
        Tree::Specifier { rest, .. } => {
            law_quiet_list(rule, quiet, state, rest);
        },
        Tree::Other { children, .. } => {
            law_quiet_list(rule, quiet, state, children);
        },
        _ => {},
    }
}

/// Two lists, one behind the other, are rewritten one by one.
pub proof fn lemma_rewritten_concat<R: Rewriting>(rule: R, state: bool, a: Seq<Tree>, b: Seq<Tree>)
    ensures
        rewritten_list(rule, state, a + b) == rewritten_list(rule, state, a) + rewritten_list(
            rule,
            state,
            b,
        ),
{
    assert(rewritten_list(rule, state, a + b) =~= rewritten_list(rule, state, a) + rewritten_list(
        rule,
        state,
        b,
    ));
}

proof fn lemma_rewritten_single<R: Rewriting>(rule: R, state: bool, t: Tree)
    ensures
        rewritten_list(rule, state, seq![t]) == seq![rewritten(rule, state, t)],
{
    assert(rewritten_list(rule, state, seq![t]) =~= seq![rewritten(rule, state, t)]);
}

proof fn lemma_rewritten_part<R: Rewriting>(rule: R, state: bool, part: Option<Box<Tree>>)
    ensures
        rewritten_list(rule, state, opt_part(part)) == opt_part(rewritten_opt(rule, state, part)),
{
    assert(rewritten_list(rule, state, opt_part(part)) =~= opt_part(
        rewritten_opt(rule, state, part),
    ));
}

/// The parts of a piece of syntax are rewritten one by one, in their order and in the state
/// inside it; those of a `with` statement are rewritten in two states.
pub proof fn law_parts_rewritten<R: Rewriting>(rule: R, state: bool, t: Tree)
    requires
        !(t is With),
    ensures
        children_of(rewritten_parts(rule, state, t)) == rewritten_list(rule, state, children_of(t)),
{
    match t {
        Tree::Arg { expr, .. } => {
            lemma_rewritten_single(rule, state, *expr);
        },
        Tree::Call { callee, args, types, .. } => {
            lemma_rewritten_single(rule, state, *callee);
            lemma_rewritten_concat(rule, state, seq![*callee], args);
            lemma_rewritten_concat(rule, state, seq![*callee] + args, types);
        },
        Tree::Member { obj, prop, .. } => {
            lemma_rewritten_single(rule, state, *obj);
            lemma_rewritten_single(rule, state, *prop);
            lemma_rewritten_concat(rule, state, seq![*obj], seq![*prop]);
        },
        Tree::Computed { expr, .. } => {
            lemma_rewritten_single(rule, state, *expr);
        },
        Tree::SuperProp { prop, .. } => {
            lemma_rewritten_single(rule, state, *prop);
        },
        Tree::OptChain { base, .. } => {
            lemma_rewritten_single(rule, state, *base);
        },
        Tree::Assign { left, right, .. } => {
            lemma_rewritten_single(rule, state, *left);
            lemma_rewritten_single(rule, state, *right);
            lemma_rewritten_concat(rule, state, seq![*left], seq![*right]);
        },
        Tree::Update { arg, .. } => {
            lemma_rewritten_single(rule, state, *arg);
        },
        Tree::Unary { arg, .. } => {
            lemma_rewritten_single(rule, state, *arg);
        },
        Tree::Bin { left, right, .. } => {
            lemma_rewritten_single(rule, state, *left);
            lemma_rewritten_single(rule, state, *right);
            lemma_rewritten_concat(rule, state, seq![*left], seq![*right]);
        },
        Tree::Paren { expr, .. } => {
            lemma_rewritten_single(rule, state, *expr);
        },
        Tree::Typed { expr, types, .. } => {
            lemma_rewritten_single(rule, state, *expr);
            lemma_rewritten_concat(rule, state, seq![*expr], types);
        },
        Tree::FnExpr { function, .. } => {
            lemma_rewritten_single(rule, state, *function);
        },
        Tree::ClassExpr { class, .. } => {
            lemma_rewritten_single(rule, state, *class);
        },
        Tree::Arrow { params, body, types, .. } => {
            lemma_rewritten_single(rule, state, *body);
            lemma_rewritten_concat(rule, state, params, seq![*body]);
            lemma_rewritten_concat(rule, state, params + seq![*body], types);
        },
        Tree::Function { this_param, params, decorators, body, types, .. } => {
            lemma_rewritten_concat(rule, state, this_param, params);
            lemma_rewritten_concat(rule, state, this_param + params, decorators);
            lemma_rewritten_part(rule, state, body);
            lemma_rewritten_concat(rule, state, this_param + params + decorators, opt_part(body));
            lemma_rewritten_concat(
                rule,
                state,
                this_param + params + decorators + opt_part(body),
                types,
            );
        },
        Tree::Param { decorators, pat, .. } => {
            lemma_rewritten_single(rule, state, *pat);
            lemma_rewritten_concat(rule, state, decorators, seq![*pat]);
        },
        Tree::Constructor { key, params, body, .. } => {
            lemma_rewritten_single(rule, state, *key);
            lemma_rewritten_concat(rule, state, seq![*key], params);
            lemma_rewritten_part(rule, state, body);
            lemma_rewritten_concat(rule, state, seq![*key] + params, opt_part(body));
        },
        Tree::Field { key, value, types, decorators, .. } => {
            lemma_rewritten_single(rule, state, *key);
            lemma_rewritten_part(rule, state, value);
            lemma_rewritten_concat(rule, state, seq![*key], opt_part(value));
            lemma_rewritten_concat(rule, state, seq![*key] + opt_part(value), types);
            lemma_rewritten_concat(rule, state, seq![*key] + opt_part(value) + types, decorators);
        },
        Tree::StaticBlock { body, .. } => {
            lemma_rewritten_single(rule, state, *body);
        },
        Tree::Accessor { key, function, .. } => {
            lemma_rewritten_single(rule, state, *key);
            lemma_rewritten_single(rule, state, *function);
            lemma_rewritten_concat(rule, state, seq![*key], seq![*function]);
        },
        Tree::PatArray { elems, types, .. } => {
            lemma_rewritten_concat(rule, state, elems, types);
        },
        Tree::PatObject { props, types, .. } => {
            lemma_rewritten_concat(rule, state, props, types);
        },
        Tree::PatAssign { left, right, .. } => {
            lemma_rewritten_single(rule, state, *left);
            lemma_rewritten_single(rule, state, *right);
            lemma_rewritten_concat(rule, state, seq![*left], seq![*right]);
        },
        Tree::PatRest { arg, types, .. } => {
            lemma_rewritten_single(rule, state, *arg);
            lemma_rewritten_concat(rule, state, seq![*arg], types);
        },
        Tree::PatProp { key, value } => {
            lemma_rewritten_single(rule, state, *key);
            lemma_rewritten_single(rule, state, *value);
            lemma_rewritten_concat(rule, state, seq![*key], seq![*value]);
        },
        Tree::PatShorthand { types, value, .. } => {
            lemma_rewritten_part(rule, state, value);
            lemma_rewritten_concat(rule, state, types, opt_part(value));
        },
        Tree::ExprStmt { expr, .. } => {
            lemma_rewritten_single(rule, state, *expr);
        },
        Tree::Declarator { name, init, .. } => {
            lemma_rewritten_single(rule, state, *name);
            lemma_rewritten_part(rule, state, init);
            lemma_rewritten_concat(rule, state, seq![*name], opt_part(init));
        },
        Tree::FnDecl { function, .. } => {
            lemma_rewritten_single(rule, state, *function);
        },
        Tree::ClassDecl { class, .. } => {
            lemma_rewritten_single(rule, state, *class);
        },
        Tree::SwitchCase { test, cons, .. } => {
            lemma_rewritten_part(rule, state, test);
            lemma_rewritten_concat(rule, state, opt_part(test), cons);
        },
        Tree::ForEach { left, right, body, .. } => {
            lemma_rewritten_single(rule, state, *left);
            lemma_rewritten_single(rule, state, *right);
            lemma_rewritten_concat(rule, state, seq![*left], seq![*right]);
            lemma_rewritten_single(rule, state, *body);
            lemma_rewritten_concat(rule, state, seq![*left] + seq![*right], seq![*body]);
        },
        Tree::Catch { param, body, .. } => {
            lemma_rewritten_part(rule, state, param);
            lemma_rewritten_single(rule, state, *body);
            lemma_rewritten_concat(rule, state, opt_part(param), seq![*body]);
        },
        Tree::Import { specifiers, rest, .. } => {
            lemma_rewritten_concat(rule, state, specifiers, rest);
        },
        _ => {
            assert(children_of(rewritten_parts(rule, state, t)) =~= rewritten_list(
                rule,
                state,
                children_of(t),
            ));
        },
    }
}

/// Syntax whose parts the rule leaves as they are is itself left as it is, up to what the
/// rule does to it as a whole.
pub proof fn lemma_parts_settled<R: Rewriting>(rule: R, state: bool, t: Tree)
    requires
        !(t is With),
        forall|i: int|
            0 <= i < children_of(t).len() ==> rewritten(
                rule,
                state,
                #[trigger] children_of(t)[i],
            ) == children_of(t)[i],
    ensures
        rewritten_parts(rule, state, t) == t,
{
    let parts = children_of(t);
    match t {
        Tree::Array { elems, .. } => {
            lemma_list_settled(rule, state, elems, parts, 0);
        },
        Tree::Arg { expr, .. } => {
            assert(parts[0] == *expr);
        },
        Tree::Call { callee, args, types, .. } => {
            assert(parts[0] == *callee);
            lemma_list_settled(rule, state, args, parts, 1);
            lemma_list_settled(rule, state, types, parts, (1 + args.len()) as int);
        },
        Tree::Member { obj, prop, .. } => {
            assert(parts[0] == *obj);
            assert(parts[1] == *prop);
        },
        Tree::Computed { expr, .. } => {
            assert(parts[0] == *expr);
        },
        Tree::SuperProp { prop, .. } => {
            assert(parts[0] == *prop);
        },
        Tree::OptChain { base, .. } => {
            assert(parts[0] == *base);
        },
        Tree::Assign { left, right, .. } => {
            assert(parts[0] == *left);
            assert(parts[1] == *right);
        },
        Tree::Update { arg, .. } => {
            assert(parts[0] == *arg);
        },
        Tree::Unary { arg, .. } => {
            assert(parts[0] == *arg);
        },
        Tree::Bin { left, right, .. } => {
            assert(parts[0] == *left);
            assert(parts[1] == *right);
        },
        Tree::Paren { expr, .. } => {
            assert(parts[0] == *expr);
        },
        Tree::Typed { expr, types, .. } => {
            assert(parts[0] == *expr);
            lemma_list_settled(rule, state, types, parts, 1);
        },
        Tree::FnExpr { function, .. } => {
            assert(parts[0] == *function);
        },
        Tree::ClassExpr { class, .. } => {
            assert(parts[0] == *class);
        },
        Tree::Arrow { params, body, types, .. } => {
            lemma_list_settled(rule, state, params, parts, 0);
            assert(parts[params.len() as int] == *body);
            lemma_list_settled(rule, state, types, parts, (1 + params.len()) as int);
        },
        Tree::Function { this_param, params, decorators, body, types, .. } => {
            lemma_list_settled(rule, state, this_param, parts, 0);
            lemma_list_settled(rule, state, params, parts, this_param.len() as int);
            lemma_list_settled(
                rule,
                state,
                decorators,
                parts,
                (this_param.len() + params.len()) as int,
            );
            if body is Some {
                assert(parts[(this_param.len() + params.len() + decorators.len()) as int]
                    == *body->0);
            }
            assert(rewritten_opt(rule, state, body) == body);
            lemma_list_settled(
                rule,
                state,
                types,
                parts,
                (this_param.len() + params.len() + decorators.len() + opt_part(body).len()) as int,
            );
        },
        Tree::Param { decorators, pat, .. } => {
            lemma_list_settled(rule, state, decorators, parts, 0);
            assert(parts[decorators.len() as int] == *pat);
        },
        Tree::FunctionBody { stmts, .. } => {
            lemma_list_settled(rule, state, stmts, parts, 0);
        },
        Tree::Constructor { key, params, body, .. } => {
            assert(parts[0] == *key);
            lemma_list_settled(rule, state, params, parts, 1);
            if body is Some {
                assert(parts[(1 + params.len()) as int] == *body->0);
            }
            assert(rewritten_opt(rule, state, body) == body);
        },
        Tree::Field { key, value, types, decorators, .. } => {
            assert(parts[0] == *key);
            if value is Some {
                assert(parts[1] == *value->0);
            }
            assert(rewritten_opt(rule, state, value) == value);
            lemma_list_settled(rule, state, types, parts, (1 + opt_part(value).len()) as int);
            lemma_list_settled(
                rule,
                state,
                decorators,
                parts,
                (1 + opt_part(value).len() + types.len()) as int,
            );
        },
        Tree::StaticBlock { body, .. } => {
            assert(parts[0] == *body);
        },
        Tree::Accessor { key, function, .. } => {
            assert(parts[0] == *key);
            assert(parts[1] == *function);
        },
        Tree::PatIdent { types, .. } => {
            lemma_list_settled(rule, state, types, parts, 0);
        },
        Tree::PatArray { elems, types, .. } => {
            lemma_list_settled(rule, state, elems, parts, 0);
            lemma_list_settled(rule, state, types, parts, elems.len() as int);
        },
        Tree::PatObject { props, types, .. } => {
            lemma_list_settled(rule, state, props, parts, 0);
            lemma_list_settled(rule, state, types, parts, props.len() as int);
        },
        Tree::PatAssign { left, right, .. } => {
            assert(parts[0] == *left);
            assert(parts[1] == *right);
        },
        Tree::PatRest { arg, types, .. } => {
            assert(parts[0] == *arg);
            lemma_list_settled(rule, state, types, parts, 1);
        },
        Tree::PatProp { key, value } => {
            assert(parts[0] == *key);
            assert(parts[1] == *value);
        },
        Tree::PatShorthand { types, value, .. } => {
            lemma_list_settled(rule, state, types, parts, 0);
            if value is Some {
                assert(parts[types.len() as int] == *value->0);
            }
            assert(rewritten_opt(rule, state, value) == value);
        },
        Tree::ExprStmt { expr, .. } => {
            assert(parts[0] == *expr);
        },
        Tree::VarDecl { decls, .. } => {
            lemma_list_settled(rule, state, decls, parts, 0);
        },
        Tree::Declarator { name, init, .. } => {
            assert(parts[0] == *name);
            if init is Some {
                assert(parts[1] == *init->0);
            }
            assert(rewritten_opt(rule, state, init) == init);
        },
        Tree::FnDecl { function, .. } => {
            assert(parts[0] == *function);
        },
        Tree::ClassDecl { class, .. } => {
            assert(parts[0] == *class);
        },
        Tree::Block { stmts, .. } => {
            lemma_list_settled(rule, state, stmts, parts, 0);
        },
        Tree::SwitchCase { test, cons, .. } => {
            if test is Some {
                assert(parts[0] == *test->0);
            }
            assert(rewritten_opt(rule, state, test) == test);
            lemma_list_settled(rule, state, cons, parts, opt_part(test).len() as int);
        },
        Tree::ForEach { left, right, body, .. } => {
            assert(parts[0] == *left);
            assert(parts[1] == *right);
            assert(parts[2] == *body);
        },
        Tree::Catch { param, body, .. } => {
            if param is Some {
                assert(parts[0] == *param->0);
            }
            assert(rewritten_opt(rule, state, param) == param);
            assert(parts[opt_part(param).len() as int] == *body);
        },
        Tree::Import { specifiers, rest, .. } => {
            lemma_list_settled(rule, state, specifiers, parts, 0);
            lemma_list_settled(rule, state, rest, parts, specifiers.len() as int);
        },
        Tree::Specifier { rest, .. } => {
            lemma_list_settled(rule, state, rest, parts, 0);
        },
        Tree::Other { children, .. } => {
            lemma_list_settled(rule, state, children, parts, 0);
        },
        _ => {},
    }
}

proof fn lemma_list_settled<R: Rewriting>(
    rule: R,
    state: bool,
    list: Seq<Tree>,
    parts: Seq<Tree>,
    offset: int,
)
    requires
        0 <= offset,
        offset + list.len() <= parts.len(),
        forall|k: int| 0 <= k < list.len() ==> #[trigger] list[k] == parts[offset + k],
        forall|i: int|
            0 <= i < parts.len() ==> rewritten(rule, state, #[trigger] parts[i]) == parts[i],
    ensures
        rewritten_list(rule, state, list) == list,
{
    assert forall|k: int| 0 <= k < list.len() implies rewritten(rule, state, #[trigger] list[k])
        == list[k] by {
        assert(list[k] == parts[offset + k]);
    }
    assert(rewritten_list(rule, state, list) =~= list);
}

} // verus!
