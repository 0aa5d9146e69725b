//! The parts of the rules, on syntax built by hand.

use wakaru_rules::bindings::{collect_stable_bindings, is_read_of, BindingId, BindingSet};
use wakaru_rules::decl_utils::{
    can_remove_prior_uninitialized_decls, ident_is_used_in_stmts_excluding_bindings,
    remove_prior_uninitialized_decls,
};
use wakaru_rules::direct_eval::{collect_direct_eval_scopes, has_direct_eval};
use wakaru_rules::expr_utils::{
    exprs_structurally_equal, is_direct_eval_call, is_one, is_unresolved_ident,
    is_unresolved_undefined, is_void_zero, is_zero, static_member, strip_parens,
    strip_parens_owned, strip_transparent_types,
};
use wakaru_rules::rewrite::{rewrite, rewrite_list};
use wakaru_rules::rewrite_level::RewriteLevel;
use wakaru_rules::same::{same_ident, same_syntax};
use wakaru_rules::syntax::{
    clone_list, take_out, AssignOp, BinaryOp, Ident, Mark, Meta, Module, Node, Span, SpecifierKind,
    SyntaxContext, TypedKind, UnaryOp, VarDeclKind,
};
use wakaru_rules::un_argument_spread::{
    args_from_apply_arg, expr_stmt_call, join_stmts, memoized_method_assignment,
    memoized_receiver_source, try_convert_apply, try_convert_function_apply,
    try_convert_reflect_apply, try_convert_split_memoized_apply, UnArgumentSpread,
};
use wakaru_rules::un_has_own_call::{match_has_own_call, HasOwnMutationCollector, UnHasOwnCall};
use wakaru_rules::un_infinity::{
    blocks_infinity, body_binds_infinity, has_dynamic_scope, module_binds_infinity,
    pat_binds_infinity, recover_infinity, UnInfinity,
};

const GLOBAL: Mark = Mark { id: 2, ctxt: 7 };

fn at(lo: u32, hi: u32) -> Span {
    Span { lo, hi }
}

fn meta(lo: u32, hi: u32, shape: u32) -> Meta {
    Meta { span: at(lo, hi), shape, slot: 0 }
}

/// An identifier that is bound nowhere.
fn free_ident(sym: &str) -> Ident {
    Ident { sym: sym.to_string(), ctxt: SyntaxContext::of_mark(GLOBAL), span: at(1, 2), optional: false }
}

/// An identifier that is bound in the file.
fn bound_ident(sym: &str) -> Ident {
    Ident {
        sym: sym.to_string(),
        ctxt: SyntaxContext { id: 9, outer: 3 },
        span: at(3, 4),
        optional: false,
    }
}

fn free(sym: &str) -> Node {
    Node::Ident { ident: free_ident(sym) }
}

fn bound(sym: &str) -> Node {
    Node::Ident { ident: bound_ident(sym) }
}

fn pat(sym: &str) -> Node {
    Node::PatIdent { ident: bound_ident(sym), types: vec![] }
}

fn num(value: f64) -> Node {
    Node::Num { meta: meta(5, 6, 0), bits: value.to_bits() }
}

fn member(obj: Node, prop: &str) -> Node {
    Node::Member {
        span: at(10, 20),
        obj: Box::new(obj),
        prop: Box::new(Node::PropIdent { span: at(15, 20), sym: prop.to_string() }),
    }
}

fn arg(expr: Node) -> Node {
    Node::Arg { spread: None, expr: Box::new(expr) }
}

fn spread(expr: Node) -> Node {
    Node::Arg { spread: Some(at(0, 0)), expr: Box::new(expr) }
}

fn call_at(span: Span, callee: Node, args: Vec<Node>) -> Node {
    Node::Call {
        span,
        ctxt: SyntaxContext { id: 4, outer: 4 },
        callee: Box::new(callee),
        args,
        types: vec![],
    }
}

fn call(callee: Node, args: Vec<Node>) -> Node {
    call_at(at(10, 40), callee, args)
}

fn paren(expr: Node) -> Node {
    Node::Paren { span: at(8, 9), expr: Box::new(expr) }
}

fn assign(left: Node, right: Node) -> Node {
    Node::Assign {
        span: at(10, 30),
        op: AssignOp::Assign,
        left: Box::new(left),
        right: Box::new(right),
    }
}

fn stmt(expr: Node) -> Node {
    Node::ExprStmt { span: at(10, 41), expr: Box::new(expr) }
}

fn unary(op: UnaryOp, arg: Node) -> Node {
    Node::Unary { span: at(1, 9), op, arg: Box::new(arg) }
}

fn div(left: Node, right: Node) -> Node {
    Node::Bin {
        span: at(50, 60),
        op: BinaryOp::Div,
        left: Box::new(left),
        right: Box::new(right),
    }
}

fn declare(kind: VarDeclKind, decls: Vec<(Node, Option<Node>)>) -> Node {
    Node::VarDecl {
        meta: meta(1, 9, 0),
        kind,
        decls: decls
            .into_iter()
            .map(|(name, init)| Node::Declarator {
                meta: meta(2, 8, 0),
                name: Box::new(name),
                init: init.map(Box::new),
            })
            .collect(),
    }
}

fn function(span: (u32, u32), params: Vec<Node>, stmts: Vec<Node>) -> Node {
    Node::Function {
        meta: meta(span.0, span.1, 0),
        this_param: vec![],
        params: params
            .into_iter()
            .map(|param| Node::Param {
                meta: meta(1, 2, 0),
                decorators: vec![],
                pat: Box::new(param),
            })
            .collect(),
        decorators: vec![],
        body: Some(Box::new(Node::FunctionBody { span: at(span.0, span.1), stmts })),
        types: vec![],
    }
}

fn module(body: Vec<Node>) -> Module {
    Module { span: at(1, 100), body }
}

fn spread_rule() -> UnArgumentSpread {
    UnArgumentSpread::new(GLOBAL, RewriteLevel::Standard)
}

#[test]
fn levels_are_ordered() {
    assert_eq!(RewriteLevel::Minimal.rank(), 0);
    assert_eq!(RewriteLevel::Standard.rank(), 1);
    assert_eq!(RewriteLevel::Aggressive.rank(), 2);
    assert!(RewriteLevel::Minimal < RewriteLevel::Standard);
    assert!(RewriteLevel::Standard < RewriteLevel::Aggressive);
}

#[test]
fn contexts_hold_marks() {
    assert_eq!(SyntaxContext::empty(), SyntaxContext { id: 0, outer: 0 });
    assert_eq!(SyntaxContext::of_mark(GLOBAL), SyntaxContext { id: 7, outer: 2 });
    assert_eq!(Span::dummy(), at(0, 0));
    assert!(is_unresolved_ident(&free_ident("x"), "x", GLOBAL));
    assert!(!is_unresolved_ident(&free_ident("x"), "y", GLOBAL));
    assert!(!is_unresolved_ident(&bound_ident("x"), "x", GLOBAL));
}

#[test]
fn copies_are_equal() {
    let tree = stmt(call(member(free("a"), "b"), vec![arg(num(1.0)), spread(Node::Hole)]));
    assert_eq!(tree.clone(), tree);
    let mut list = vec![free("a"), free("b")];
    assert_eq!(clone_list(&list), list);
    assert_eq!(take_out(&mut list, 1), free("b"));
    assert_eq!(list, vec![free("a"), Node::Hole]);
}

#[test]
fn wrappers_are_stripped() {
    let typed = Node::Typed {
        kind: TypedKind::As,
        span: at(1, 2),
        expr: Box::new(paren(free("x"))),
        types: vec![],
    };
    assert_eq!(strip_parens(&paren(paren(free("x")))), &free("x"));
    assert_eq!(strip_parens(&paren(typed.clone())), &typed);
    assert_eq!(strip_parens_owned(paren(free("x"))), free("x"));
    assert_eq!(strip_transparent_types(&paren(typed)), &free("x"));
}

#[test]
fn numbers_are_told_apart() {
    assert!(is_zero(&num(0.0)));
    assert!(is_zero(&num(-0.0)));
    assert!(!is_zero(&num(1.0)));
    assert!(!is_zero(&num(f64::MIN_POSITIVE)));
    assert!(is_one(&num(1.0)));
    assert!(!is_one(&num(-1.0)));
    assert!(!is_one(&free("x")));
}

#[test]
fn undefined_has_two_forms() {
    assert!(is_void_zero(&unary(UnaryOp::Void, num(0.0))));
    assert!(is_void_zero(&unary(UnaryOp::Void, paren(num(0.0)))));
    assert!(!is_void_zero(&unary(UnaryOp::Void, num(1.0))));
    assert!(!is_void_zero(&unary(UnaryOp::Minus, num(0.0))));
    assert!(is_unresolved_undefined(&free("undefined"), GLOBAL));
    assert!(is_unresolved_undefined(&unary(UnaryOp::Void, num(0.0)), GLOBAL));
    assert!(!is_unresolved_undefined(&bound("undefined"), GLOBAL));
    assert!(!is_unresolved_undefined(&Node::Null { span: at(0, 0) }, GLOBAL));
}

#[test]
fn members_are_read() {
    assert_eq!(static_member(&member(free("a"), "b"), "b"), Some(&free("a")));
    assert_eq!(static_member(&member(free("a"), "b"), "c"), None);
    let computed = Node::Member {
        span: at(1, 2),
        obj: Box::new(free("a")),
        prop: Box::new(Node::Computed { span: at(1, 2), expr: Box::new(free("b")) }),
    };
    assert_eq!(static_member(&computed, "b"), None);
    assert!(is_read_of(&bound("a"), &bound_ident("a")));
    assert!(!is_read_of(&bound("a"), &free_ident("a")));
    assert!(same_ident(&bound_ident("a"), &bound_ident("a")));
    assert!(!same_ident(&bound_ident("a"), &bound_ident("b")));
}

#[test]
fn positions_do_not_matter_to_equality() {
    let one = Node::Other { meta: meta(1, 2, 5), children: vec![free("a")] };
    let moved = Node::Other { meta: meta(3, 9, 5), children: vec![free("a")] };
    let reshaped = Node::Other { meta: meta(1, 2, 6), children: vec![free("a")] };
    let longer = Node::Other { meta: meta(1, 2, 5), children: vec![free("a"), free("a")] };
    assert!(same_syntax(&one, &moved));
    assert!(!same_syntax(&one, &reshaped));
    assert!(!same_syntax(&one, &longer));
    assert!(exprs_structurally_equal(
        &call_at(at(1, 2), free("f"), vec![spread(free("x"))]),
        &call_at(at(7, 8), free("f"), vec![spread(free("x"))]),
    ));
    assert!(!exprs_structurally_equal(
        &call(free("f"), vec![spread(free("x"))]),
        &call(free("f"), vec![arg(free("x"))]),
    ));
    assert!(!exprs_structurally_equal(&free("f"), &bound("f")));
    assert!(!exprs_structurally_equal(&num(0.0), &num(-0.0)));
}

#[test]
fn direct_eval_is_a_call_by_name() {
    assert!(is_direct_eval_call(&call(free("eval"), vec![])));
    assert!(is_direct_eval_call(&call(paren(bound("eval")), vec![])));
    assert!(!is_direct_eval_call(&call(member(free("a"), "eval"), vec![])));
    assert!(has_direct_eval(&stmt(call(free("f"), vec![arg(call(free("eval"), vec![]))]))));
    let inner = function((5, 9), vec![], vec![stmt(call(free("eval"), vec![]))]);
    let outer = Node::FnExpr { name: None, function: Box::new(inner) };
    assert!(!has_direct_eval(&outer));
}

#[test]
fn eval_scopes_are_collected_from_the_outside_in() {
    let inner = Node::FnExpr {
        name: None,
        function: Box::new(function((20, 30), vec![], vec![stmt(call(free("eval"), vec![]))])),
    };
    let plain = Node::FnExpr {
        name: None,
        function: Box::new(function((40, 45), vec![], vec![])),
    };
    let default = Node::PatAssign {
        span: at(11, 15),
        left: Box::new(pat("p")),
        right: Box::new(call(free("eval"), vec![])),
    };
    let outer = Node::FnDecl {
        meta: meta(10, 50, 0),
        ident: bound_ident("f"),
        function: Box::new(function((10, 50), vec![default], vec![stmt(inner), stmt(plain)])),
    };
    let scopes = collect_direct_eval_scopes(&module(vec![outer]));
    assert!(!scopes.top_level);
    assert_eq!(scopes.functions, vec![at(10, 50), at(20, 30)]);
    let scopes = collect_direct_eval_scopes(&module(vec![stmt(call(free("eval"), vec![]))]));
    assert!(scopes.top_level);
    assert_eq!(scopes.functions, vec![]);
}

#[test]
fn stable_bindings_are_constants_that_are_not_written_to() {
    let import = Node::Import {
        meta: meta(1, 2, 0),
        specifiers: vec![
            Node::Specifier {
                meta: meta(1, 2, 0),
                kind: SpecifierKind::Namespace,
                local: bound_ident("namespace"),
                rest: vec![],
            },
            Node::Specifier {
                meta: meta(1, 2, 0),
                kind: SpecifierKind::Named,
                local: bound_ident("live"),
                rest: vec![],
            },
        ],
        rest: vec![],
    };
    let items = vec![
        import,
        declare(VarDeclKind::Const, vec![(pat("kept"), Some(num(1.0)))]),
        declare(VarDeclKind::Const, vec![(pat("written"), Some(num(1.0)))]),
        declare(VarDeclKind::Let, vec![(pat("variable"), Some(num(1.0)))]),
        stmt(assign(pat("written"), num(2.0))),
    ];
    let ids = collect_stable_bindings(&module(items));
    assert!(ids.contains(&bound_ident("namespace")));
    assert!(ids.contains(&bound_ident("kept")));
    assert!(!ids.contains(&bound_ident("live")));
    assert!(!ids.contains(&bound_ident("written")));
    assert!(!ids.contains(&bound_ident("variable")));
    assert!(!ids.contains(&free_ident("kept")));
    assert_eq!(ids.len(), 2);
    assert_eq!(BindingId::of(&bound_ident("a")).sym, "a");
}

#[test]
fn a_set_holds_a_binding_once() {
    let mut set = BindingSet::new();
    assert_eq!(set.len(), 0);
    set.insert(&bound_ident("a"));
    set.insert(&bound_ident("b"));
    set.insert(&bound_ident("a"));
    set.insert(&free_ident("a"));
    assert_eq!(set.len(), 3);
    assert!(set.contains(&bound_ident("a")));
    assert!(set.contains_id(&BindingId::of(&free_ident("a"))));
    assert!(!set.contains(&free_ident("b")));
    let mut other = BindingSet::new();
    other.insert(&bound_ident("a"));
    other.insert(&bound_ident("c"));
    let rest = set.difference(&other);
    assert_eq!(rest.len(), 2);
    assert!(rest.contains(&bound_ident("b")));
    assert!(rest.contains(&free_ident("a")));
}

#[test]
fn uses_are_not_declarations() {
    let temp = bound_ident("temp");
    let declared = declare(VarDeclKind::Var, vec![(pat("temp"), None)]);
    let read = stmt(bound("temp"));
    let written = stmt(assign(pat("temp"), num(1.0)));
    let stmts = vec![read, declared.clone()];
    assert!(ident_is_used_in_stmts_excluding_bindings(&temp, &stmts, 0));
    assert!(!ident_is_used_in_stmts_excluding_bindings(&temp, &stmts, 1));
    assert!(!ident_is_used_in_stmts_excluding_bindings(&temp, &stmts, 2));
    assert!(ident_is_used_in_stmts_excluding_bindings(&temp, &vec![written], 0));
    let inner = function((1, 9), vec![pat("temp")], vec![stmt(bound("temp"))]);
    let outer = Node::FnDecl {
        meta: meta(1, 9, 0),
        ident: bound_ident("temp"),
        function: Box::new(function((1, 9), vec![pat("temp")], vec![])),
    };
    assert!(!ident_is_used_in_stmts_excluding_bindings(&temp, &vec![outer], 0));
    assert!(ident_is_used_in_stmts_excluding_bindings(&temp, &vec![inner], 0));
}

#[test]
fn declarations_of_temporaries_are_removed() {
    let a = bound_ident("a");
    let b = bound_ident("b");
    let mut stmts = vec![
        declare(VarDeclKind::Var, vec![(pat("a"), None), (pat("c"), None)]),
        declare(VarDeclKind::Let, vec![(pat("b"), None)]),
        stmt(free("other")),
    ];
    assert!(can_remove_prior_uninitialized_decls(&stmts, &vec![a.clone(), b.clone()]));
    assert!(!can_remove_prior_uninitialized_decls(&stmts, &vec![a.clone(), bound_ident("d")]));
    assert!(can_remove_prior_uninitialized_decls(&stmts, &vec![]));
    remove_prior_uninitialized_decls(&mut stmts, &vec![a.clone(), b]);
    assert_eq!(
        stmts,
        vec![
            declare(VarDeclKind::Var, vec![(pat("c"), None)]),
            stmt(free("other")),
        ]
    );
    let valued = vec![declare(VarDeclKind::Var, vec![(pat("a"), Some(num(1.0)))])];
    assert!(!can_remove_prior_uninitialized_decls(&valued, &vec![a.clone()]));
    let used = vec![declare(VarDeclKind::Var, vec![(pat("a"), None)]), stmt(bound("a"))];
    assert!(!can_remove_prior_uninitialized_decls(&used, &vec![a]));
}

#[test]
fn function_apply_keeps_the_position_of_the_call() {
    let input = call(
        member(free("f"), "apply"),
        vec![arg(Node::Null { span: at(1, 2) }), arg(free("xs"))],
    );
    let expected = call(free("f"), vec![spread(free("xs"))]);
    assert_eq!(try_convert_function_apply(input.clone(), GLOBAL), Ok(expected.clone()));
    assert_eq!(try_convert_apply(&spread_rule(), true, input), Ok(expected.clone()));
    assert_eq!(try_convert_apply(&spread_rule(), false, expected.clone()), Err(expected));
    let other = call(member(free("f"), "apply"), vec![arg(free("x")), arg(free("xs"))]);
    assert_eq!(try_convert_function_apply(other.clone(), GLOBAL), Err(other));
}

#[test]
fn reflect_apply_gives_a_call_without_a_position() {
    let reflect = |this_arg: Node| {
        call(
            member(free("Reflect"), "apply"),
            vec![arg(paren(free("f"))), arg(this_arg), arg(paren(free("xs")))],
        )
    };
    let expected = Node::Call {
        span: Span::dummy(),
        ctxt: SyntaxContext::empty(),
        callee: Box::new(paren(free("f"))),
        args: vec![spread(free("xs"))],
        types: vec![],
    };
    let mut rule = spread_rule();
    let input = reflect(free("undefined"));
    assert_eq!(try_convert_reflect_apply(&rule, false, &input), Some(expected.clone()));
    assert_eq!(try_convert_apply(&rule, false, input.clone()), Ok(expected));
    assert_eq!(try_convert_reflect_apply(&rule, true, &input), None);
    assert_eq!(try_convert_reflect_apply(&rule, false, &reflect(free("x"))), None);
    assert_eq!(try_convert_apply(&rule, false, reflect(free("x"))), Err(reflect(free("x"))));
    rule.direct_eval_scopes = vec![at(10, 40)];
    assert_eq!(try_convert_reflect_apply(&rule, false, &input), None);
    rule.direct_eval_scopes = vec![at(11, 40), at(10, 39)];
    assert!(try_convert_reflect_apply(&rule, false, &input).is_some());
    rule.top_level_direct_eval = true;
    assert_eq!(try_convert_reflect_apply(&rule, false, &input), None);
}

#[test]
fn reflect_apply_needs_a_stable_receiver() {
    let input = call(
        member(free("Reflect"), "apply"),
        vec![arg(member(bound("o"), "m")), arg(bound("o")), arg(free("xs"))],
    );
    let chain = call(
        member(free("Reflect"), "apply"),
        vec![
            arg(Node::OptChain {
                span: at(1, 2),
                optional: true,
                base: Box::new(member(bound("o"), "m")),
            }),
            arg(bound("o")),
            arg(free("xs")),
        ],
    );
    let mut rule = spread_rule();
    assert_eq!(try_convert_reflect_apply(&rule, false, &input), None);
    assert_eq!(try_convert_reflect_apply(&rule, false, &chain), None);
    rule.stable_bindings.insert(&bound_ident("o"));
    assert!(try_convert_reflect_apply(&rule, false, &input).is_some());
    assert!(try_convert_reflect_apply(&rule, false, &chain).is_some());
}

#[test]
fn memoized_receivers_are_found() {
    let keep = paren(assign(pat("t"), free("x")));
    assert_eq!(memoized_receiver_source(&keep, &bound("t")), Some(free("x")));
    assert_eq!(memoized_receiver_source(&keep, &bound("u")), None);
    assert_eq!(memoized_receiver_source(&free("x"), &bound("t")), None);
    let first = stmt(assign(pat("m"), member(free("o"), "f")));
    assert_eq!(
        memoized_method_assignment(&first),
        Some((&bound_ident("m"), &member(free("o"), "f")))
    );
    assert_eq!(memoized_method_assignment(&stmt(assign(pat("m"), free("o")))), None);
    assert_eq!(expr_stmt_call(&first), None);
    assert_eq!(
        expr_stmt_call(&stmt(call(free("f"), vec![]))),
        Some(&call(free("f"), vec![]))
    );
}

#[test]
fn argument_lists_are_taken_apart_unless_they_have_holes() {
    let list = |elems: Vec<Node>| Node::Array { span: at(1, 2), elems };
    assert_eq!(
        args_from_apply_arg(list(vec![arg(free("a")), spread(free("b"))])),
        vec![arg(free("a")), spread(free("b"))]
    );
    assert_eq!(args_from_apply_arg(list(vec![])), vec![]);
    assert_eq!(
        args_from_apply_arg(list(vec![Node::Hole])),
        vec![spread(list(vec![Node::Hole]))]
    );
    assert_eq!(args_from_apply_arg(free("xs")), vec![spread(free("xs"))]);
}

#[test]
fn split_calls_are_joined() {
    let first = stmt(assign(pat("m"), member(free("o"), "f")));
    let second = stmt(call(member(bound("m"), "apply"), vec![arg(free("o")), arg(free("xs"))]));
    let joined = Node::ExprStmt {
        span: at(10, 40),
        expr: Box::new(call(member(free("o"), "f"), vec![spread(free("xs"))])),
    };
    let rest = vec![stmt(free("other"))];
    let rewrite = try_convert_split_memoized_apply(&first, &second, &rest, 0);
    let rewrite = match rewrite {
        Some(rewrite) => rewrite,
        None => panic!("not joined"),
    };
    assert_eq!(rewrite.stmt, joined);
    assert_eq!(rewrite.removable_bindings, vec![bound_ident("m")]);
    let kept_receiver = stmt(assign(
        pat("m"),
        member(paren(assign(pat("r"), free("o"))), "f"),
    ));
    let read = Node::Ident { ident: Ident { span: at(70, 71), ..bound_ident("r") } };
    let applied = stmt(call(member(bound("m"), "apply"), vec![arg(read), arg(free("xs"))]));
    let both = match try_convert_split_memoized_apply(&kept_receiver, &applied, &rest, 0) {
        Some(both) => both,
        None => panic!("not joined"),
    };
    assert_eq!(both.stmt, joined);
    assert_eq!(
        both.removable_bindings,
        vec![bound_ident("m"), Ident { span: at(70, 71), ..bound_ident("r") }]
    );
    let use_behind = vec![stmt(bound("m"))];
    assert!(try_convert_split_memoized_apply(&first, &second, &use_behind, 0).is_none());
    assert!(try_convert_split_memoized_apply(&first, &second, &use_behind, 1).is_some());
    let declared = declare(VarDeclKind::Var, vec![(pat("m"), None)]);
    assert_eq!(join_stmts(vec![declared, first.clone(), second.clone()]), vec![joined]);
    assert_eq!(join_stmts(vec![first.clone(), second.clone()]), vec![first, second]);
    assert_eq!(join_stmts(vec![]), vec![]);
}

#[test]
fn a_method_called_apply_is_joined_into_a_call_that_can_be_converted() {
    let declared = declare(VarDeclKind::Var, vec![(pat("m"), None)]);
    let first = stmt(assign(pat("m"), member(free("f"), "apply")));
    let list = Node::Array {
        span: at(1, 2),
        elems: vec![arg(Node::Null { span: at(1, 2) }), arg(free("xs"))],
    };
    let second = stmt(call(member(bound("m"), "apply"), vec![arg(free("f")), arg(list)]));
    let out = join_stmts(vec![declared, first, second]);
    let direct = match out.as_slice() {
        [Node::ExprStmt { expr, .. }] => (**expr).clone(),
        other => panic!("{other:?}"),
    };
    assert_eq!(
        try_convert_apply(&spread_rule(), false, direct),
        Ok(call(free("f"), vec![spread(free("xs"))]))
    );
}

#[test]
fn nothing_carries_over_from_one_module_to_the_next() {
    let reflect = call(
        member(free("Reflect"), "apply"),
        vec![arg(member(bound("o"), "m")), arg(bound("o")), arg(free("xs"))],
    );
    let stable = vec![
        declare(VarDeclKind::Const, vec![(pat("o"), Some(num(1.0)))]),
        stmt(reflect.clone()),
    ];
    let mut used = spread_rule();
    used.visit_mut_module(&mut module(stable.clone()));
    used.visit_mut_module(&mut module(vec![stmt(call(free("eval"), vec![]))]));
    for items in [stable, vec![stmt(reflect)]] {
        let mut once = module(items.clone());
        let mut again = module(items);
        spread_rule().visit_mut_module(&mut once);
        used.visit_mut_module(&mut again);
        assert_eq!(once.body, again.body);
    }
}

#[test]
fn statements_by_themselves_are_rewritten_and_joined() {
    let stmts = vec![
        declare(VarDeclKind::Var, vec![(pat("m"), None)]),
        stmt(assign(pat("m"), member(free("o"), "f"))),
        stmt(call(member(bound("m"), "apply"), vec![arg(free("o")), arg(free("xs"))])),
    ];
    let mut out = stmts.clone();
    spread_rule().visit_mut_stmts(&mut out);
    assert_eq!(
        out,
        vec![Node::ExprStmt {
            span: at(10, 40),
            expr: Box::new(call(member(free("o"), "f"), vec![spread(free("xs"))])),
        }]
    );
    let mut kept = stmts.clone();
    UnArgumentSpread::new(GLOBAL, RewriteLevel::Minimal).visit_mut_stmts(&mut kept);
    assert_eq!(kept, stmts);
}

#[test]
fn the_spread_rule_looks_at_the_module_first() {
    let mut rule = spread_rule();
    assert_eq!(rule.stable_bindings.len(), 0);
    let mut code = module(vec![
        declare(VarDeclKind::Const, vec![(pat("o"), Some(num(1.0)))]),
        stmt(call(free("eval"), vec![])),
    ]);
    let before = code.body.clone();
    rule.visit_mut_module(&mut code);
    assert_eq!(code.body, before);
    assert_eq!(code.span, at(1, 100));
    assert!(rule.top_level_direct_eval);
    assert!(rule.stable_bindings.contains(&bound_ident("o")));
}

fn has_own(object: Node) -> Node {
    let method = member(member(member(object, "prototype"), "hasOwnProperty"), "call");
    call(method, vec![arg(free("value")), arg(free("key"))])
}

#[test]
fn the_has_own_call_is_matched() {
    assert_eq!(match_has_own_call(&has_own(free("Object")), GLOBAL), Some(free_ident("Object")));
    assert_eq!(
        match_has_own_call(&has_own(paren(free("Object"))), GLOBAL),
        Some(free_ident("Object"))
    );
    assert_eq!(match_has_own_call(&has_own(bound("Object")), GLOBAL), None);
    assert_eq!(match_has_own_call(&has_own(free("Other")), GLOBAL), None);
    assert_eq!(match_has_own_call(&free("Object"), GLOBAL), None);
}

#[test]
fn the_recovered_call_keeps_its_arguments() {
    let rule = UnHasOwnCall::new(RewriteLevel::Aggressive, GLOBAL);
    let expected = Node::Call {
        span: at(10, 40),
        ctxt: SyntaxContext { id: 4, outer: 4 },
        callee: Box::new(Node::Member {
            span: Span::dummy(),
            obj: Box::new(free("Object")),
            prop: Box::new(Node::PropIdent { span: Span::dummy(), sym: String::from("hasOwn") }),
        }),
        args: vec![arg(free("value")), arg(free("key"))],
        types: vec![],
    };
    assert_eq!(rewrite(&rule, false, has_own(free("Object"))), expected);
    let blocked = UnHasOwnCall { blocked: true, ..rule };
    assert_eq!(rewrite(&blocked, false, has_own(free("Object"))), has_own(free("Object")));
}

#[test]
fn unsafe_writes_are_remembered_by_the_rule() {
    let mut rule = UnHasOwnCall::new(RewriteLevel::Aggressive, GLOBAL);
    assert!(!rule.blocked);
    let write = stmt(assign(member(free("Object"), "prototype"), free("x")));
    let mut code = module(vec![stmt(has_own(free("Object"))), write]);
    assert!(HasOwnMutationCollector::has_unsafe_write(&code, GLOBAL));
    let before = code.body.clone();
    rule.visit_mut_module(&mut code);
    assert!(rule.blocked);
    assert_eq!(code.body, before);
    let mut safe = module(vec![stmt(has_own(free("Object")))]);
    assert!(!HasOwnMutationCollector::has_unsafe_write(&safe, GLOBAL));
    rule.visit_mut_module(&mut safe);
    assert!(!rule.blocked);
    assert_ne!(safe.body, vec![stmt(has_own(free("Object")))]);
}

#[test]
fn the_walk_for_writes_remembers_aliases() {
    let mut walk = HasOwnMutationCollector {
        mark: GLOBAL,
        blocked: false,
        object_aliases: BindingSet::new(),
        prototype_aliases: BindingSet::new(),
    };
    walk.visit(&declare(VarDeclKind::Const, vec![(pat("O"), Some(free("Object")))]), false);
    assert!(walk.object_aliases.contains(&bound_ident("O")));
    let prototype = member(bound("O"), "prototype");
    walk.visit(&declare(VarDeclKind::Const, vec![(pat("P"), Some(prototype))]), false);
    assert!(walk.prototype_aliases.contains(&bound_ident("P")));
    walk.visit(&stmt(member(bound("P"), "hasOwn")), false);
    assert!(!walk.blocked);
    walk.visit(&stmt(unary(UnaryOp::Delete, member(bound("P"), "hasOwn"))), false);
    assert!(walk.blocked);
    walk.visit(&stmt(free("x")), false);
    assert!(walk.blocked);
}

#[test]
fn infinity_has_the_position_of_the_quotient() {
    let infinity = Node::Ident {
        ident: Ident {
            sym: String::from("Infinity"),
            ctxt: SyntaxContext { id: 7, outer: 2 },
            span: at(50, 60),
            optional: false,
        },
    };
    assert_eq!(recover_infinity(div(num(1.0), num(0.0)), GLOBAL), infinity);
    assert_eq!(recover_infinity(div(num(1.0), num(-0.0)), GLOBAL), infinity);
    assert_eq!(
        recover_infinity(div(unary(UnaryOp::Minus, num(1.0)), num(0.0)), GLOBAL),
        Node::Unary { span: at(50, 60), op: UnaryOp::Minus, arg: Box::new(infinity) }
    );
    let other = div(num(2.0), num(0.0));
    assert_eq!(recover_infinity(other.clone(), GLOBAL), other);
}

#[test]
fn bound_infinity_is_found() {
    assert!(pat_binds_infinity(&pat("Infinity")));
    assert!(!pat_binds_infinity(&pat("x")));
    assert!(!pat_binds_infinity(&free("Infinity")));
    let lexical = vec![declare(VarDeclKind::Let, vec![(pat("Infinity"), None)])];
    let var = vec![declare(VarDeclKind::Var, vec![(pat("Infinity"), None)])];
    assert!(body_binds_infinity(&lexical, true));
    assert!(!body_binds_infinity(&var, true));
    assert!(body_binds_infinity(&var, false));
    assert!(blocks_infinity(&Node::Block { meta: meta(1, 2, 0), stmts: lexical }, GLOBAL));
    assert!(!blocks_infinity(&Node::Block { meta: meta(1, 2, 0), stmts: var.clone() }, GLOBAL));
    assert!(module_binds_infinity(&module(var)));
    assert!(!module_binds_infinity(&module(vec![stmt(free("Infinity"))])));
    assert!(has_dynamic_scope(&stmt(call(free("eval"), vec![])), GLOBAL));
    assert!(!has_dynamic_scope(&stmt(call(bound("eval"), vec![])), GLOBAL));
    assert!(!has_dynamic_scope(&stmt(call(paren(free("eval")), vec![])), GLOBAL));
}

#[test]
fn a_blocked_rule_changes_nothing() {
    let mut rule = UnInfinity { unresolved_mark: GLOBAL, blocked: true };
    let mut code = module(vec![stmt(div(num(1.0), num(0.0)))]);
    rule.visit_mut_module(&mut code);
    assert!(rule.blocked);
    assert_eq!(code.body, vec![stmt(div(num(1.0), num(0.0)))]);
    let free_rule = UnInfinity::new(GLOBAL);
    assert!(!free_rule.blocked);
    let list = vec![div(num(1.0), num(0.0))];
    assert_eq!(rewrite_list(&free_rule, true, list.clone()), list);
    assert_ne!(rewrite_list(&free_rule, false, list.clone()), list);
}
