//! Calls through `apply` become calls with a spread argument.
//!
//! `fn.apply(undefined, args)` becomes `fn(...args)`, `object.method.apply(object, args)`
//! becomes `object.method(...args)`, and `Reflect.apply(fn, undefined, args)` becomes
//! `fn(...args)`.
use vstd::prelude::*;

use crate::bindings::{
    binding_of, collect_stable_bindings, is_read_of, reads, stable_bindings, Binding, BindingSet,
};
use crate::decl_utils::{
    bindings_of, can_remove_prior_uninitialized_decls, ident_is_used_in_stmts_excluding_bindings,
    ident_views, removable, remove_prior_uninitialized_decls, removed, some_uses,
};
use crate::direct_eval::{collect_direct_eval_scopes, module_eval_scopes, module_evals};
use crate::expr_utils::{
    exprs_structurally_equal, global, ident_expr, is_global, is_named, is_unresolved_undefined,
    is_void_zero, named, object_of, pattern_ident, pattern_name, plain, plain_arg, read_ident,
    static_member, strip_parens, strip_parens_owned, strip_transparent_types, unresolved_undefined,
    void_zero, without_parens, without_types,
};
use crate::rewrite::{rewrite_list, rewritten_list, Rewriting, Rule};
use crate::rewrite_level::RewriteLevel;
use crate::same::placeless;
use crate::syntax::{
    clone_list, lemma_trees, lemma_trees_push, take_out, trees, AssignOp, Ident, IdentView, Mark,
    Module, ModuleView, Node, Span, SyntaxContext, Tree,
};

verus! {

broadcast use {lemma_trees, lemma_trees_push};

/// The rule that turns calls through `apply` into calls with a spread argument.
pub struct UnArgumentSpread {
    /// The mark of identifiers that are bound nowhere in the file.
    pub unresolved_mark: Mark,
    /// How far the rule may go.
    pub level: RewriteLevel,
    /// The bindings of the module whose value never changes.
    pub stable_bindings: BindingSet,
    /// Whether a direct call of `eval` runs in the scope of the module itself.
    pub top_level_direct_eval: bool,
    /// The scopes inside the module in which a direct call of `eval` runs.
    pub direct_eval_scopes: Vec<Span>,
}

/// What the rule goes by.
pub ghost struct SpreadFacts {
    /// The mark of identifiers that are bound nowhere in the file.
    pub unresolved_mark: Mark,
    /// How far the rule may go.
    pub level: RewriteLevel,
    /// The bindings of the module whose value never changes.
    pub stable_bindings: Set<Binding>,
    /// Whether a direct call of `eval` runs in the scope of the module itself.
    pub top_level_direct_eval: bool,
    /// The scopes inside the module in which a direct call of `eval` runs.
    pub direct_eval_scopes: Seq<Span>,
}

impl View for UnArgumentSpread {
    type V = SpreadFacts;

    open spec fn view(&self) -> SpreadFacts {
        SpreadFacts {
            unresolved_mark: self.unresolved_mark,
            level: self.level,
            stable_bindings: self.stable_bindings@,
            top_level_direct_eval: self.top_level_direct_eval,
            direct_eval_scopes: self.direct_eval_scopes@,
        }
    }
}

/// `...arguments` in the place of an argument.
pub open spec fn spread_arg(arguments: Tree) -> Tree {
    Tree::Arg { spread: Some(Span::dummy()), expr: Box::new(arguments) }
}

/// The call `callee(...arguments)`.
pub open spec fn direct_spread_call(
    span: Span,
    ctxt: SyntaxContext,
    callee: Tree,
    arguments: Tree,
    types: Seq<Tree>,
) -> Tree {
    Tree::Call {
        span,
        ctxt,
        callee: Box::new(callee),
        args: seq![spread_arg(arguments)],
        types,
    }
}

fn make_direct_spread_call_with_parts(
    span: Span,
    ctxt: SyntaxContext,
    callee: Box<Node>,
    arguments: Box<Node>,
    types: Vec<Node>,
) -> (call: Node)
    ensures
        call@ == direct_spread_call(span, ctxt, callee@, arguments@, trees(types@)),
{
    let mut args: Vec<Node> = Vec::new();
    args.push(Node::Arg { spread: Some(Span::dummy()), expr: arguments });
    assert(trees(args@) =~= seq![spread_arg(arguments@)]);
    Node::Call { span, ctxt, callee, args, types }
}

/// The call `callee(...arguments)` that stands nowhere in the source text.
fn make_direct_spread_call(callee: Node, arguments: Node) -> (call: Node)
    ensures
        call@ == direct_spread_call(
            Span::dummy(),
            SyntaxContext::empty(),
            callee@,
            arguments@,
            seq![],
        ),
{
    let types: Vec<Node> = Vec::new();
    assert(trees(types@) =~= seq![]);
    make_direct_spread_call_with_parts(
        Span::dummy(),
        SyntaxContext::empty(),
        Box::new(callee),
        Box::new(arguments),
        types,
    )
}

/// `t` is a value for which a function is called without a receiver.
pub open spec fn nullish(t: Tree, mark: Mark) -> bool {
    unresolved_undefined(t, mark) || t is Null || void_zero(t)
}

fn is_reflect_nullish(expr: &Node, unresolved_mark: Mark) -> (yes: bool)
    ensures
        yes <==> nullish(expr@, unresolved_mark),
{
    is_unresolved_undefined(expr, unresolved_mark) || is_null(expr) || is_void_zero(expr)
}

fn is_null(expr: &Node) -> (yes: bool)
    ensures
        yes <==> expr@ is Null,
{
    match expr {
        Node::Null { .. } => true,
        _ => false,
    }
}

fn is_this(expr: &Node) -> (yes: bool)
    ensures
        yes <==> expr@ is This,
{
    match expr {
        Node::This { .. } => true,
        _ => false,
    }
}

fn is_array(expr: &Node) -> (yes: bool)
    ensures
        yes <==> expr@ is Array,
{
    match expr {
        Node::Array { .. } => true,
        _ => false,
    }
}

fn is_super_prop(expr: &Node) -> (yes: bool)
    ensures
        yes <==> expr@ is SuperProp,
{
    match expr {
        Node::SuperProp { .. } => true,
        _ => false,
    }
}

/// The object on which a member expression looks up its property.
pub open spec fn member_object(t: Tree) -> Option<Tree> {
    match t {
        Tree::Member { obj, .. } => Some(*obj),
        _ => None,
    }
}

fn object_of_member(node: &Node) -> (object: Option<&Node>)
    ensures
        match object {
            Some(object) => member_object(node@) == Some(object@),
            None => member_object(node@) is None,
        },
{
    match node {
        Node::Member { obj, .. } => Some(&**obj),
        _ => None,
    }
}

/// The receiver with which `target` is called, if `target` is a property of an object.
pub open spec fn receiver_of(target: Tree) -> Option<Tree> {
    let object = match target {
        Tree::OptChain { base, .. } => member_object(*base),
        _ => member_object(target),
    };
    match object {
        Some(object) => Some(without_parens(object)),
        None => None,
    }
}

fn target_receiver(target: &Node) -> (receiver: Option<&Node>)
    ensures
        match receiver {
            Some(receiver) => receiver_of(target@) == Some(receiver@),
            None => receiver_of(target@) is None,
        },
{
    let object = match target {
        Node::OptChain { base, .. } => object_of_member(base),
        _ => object_of_member(target),
    };
    match object {
        Some(object) => Some(strip_parens(object)),
        None => None,
    }
}

/// A call of `target` has a receiver.
pub open spec fn receiver_bearing(target: Tree) -> bool {
    target is SuperProp || receiver_of(target) is Some
}

fn is_receiver_bearing_target(target: &Node) -> (yes: bool)
    ensures
        yes <==> receiver_bearing(target@),
{
    is_super_prop(target) || target_receiver(target).is_some()
}

/// `t` has the same value each time that it is read: it is `this`, or one of the stable
/// bindings.
pub open spec fn stable_receiver(t: Tree, stable_bindings: Set<Binding>) -> bool {
    match t {
        Tree::This { .. } => true,
        Tree::Ident { ident } => stable_bindings.contains(binding_of(ident)),
        _ => false,
    }
}

fn receiver_is_stable(expr: &Node, stable_bindings: &BindingSet) -> (yes: bool)
    ensures
        yes <==> stable_receiver(expr@, stable_bindings@),
{
    match expr {
        Node::This { .. } => true,
        Node::Ident { ident } => stable_bindings.contains(ident),
        _ => false,
    }
}

/// `inner` lies within `outer`.
pub open spec fn within(inner: Span, outer: Span) -> bool {
    outer.lo <= inner.lo && inner.hi <= outer.hi
}

/// What a name means at `span` may depend on values of the running program: the place
/// stands in a `with` statement, or in a scope in which a direct call of `eval` runs.
pub open spec fn dynamic_place(rule: SpreadFacts, in_with: bool, span: Span) -> bool {
    in_with || rule.top_level_direct_eval || exists|i: int|
        0 <= i < rule.direct_eval_scopes.len() && within(
            span,
            #[trigger] rule.direct_eval_scopes[i],
        )
}

fn is_dynamic_place(rule: &UnArgumentSpread, in_with: bool, span: Span) -> (yes: bool)
    ensures
        yes <==> dynamic_place(rule@, in_with, span),
{
    if in_with || rule.top_level_direct_eval {
        return true;
    }
    let mut i: usize = 0;
    while i < rule.direct_eval_scopes.len()
        invariant
            i <= rule.direct_eval_scopes.len(),
            forall|k: int|
                0 <= k < i ==> !within(span, #[trigger] rule.direct_eval_scopes@[k]),
        decreases rule.direct_eval_scopes.len() - i,
    {
        let scope = rule.direct_eval_scopes[i];
        if scope.lo <= span.lo && span.hi <= scope.hi {
            assert(within(span, rule@.direct_eval_scopes[i as int]));
            return true;
        }
        i += 1;
    }
    false
}

/// A direct call of `target` has the receiver `this_arg`.
pub open spec fn same_receiver(rule: SpreadFacts, target: Tree, this_arg: Tree) -> bool {
    match receiver_of(target) {
        Some(receiver) => placeless(this_arg) == placeless(receiver) && stable_receiver(
            receiver,
            rule.stable_bindings,
        ),
        None => if receiver_bearing(target) {
            target is SuperProp && this_arg is This
        } else {
            nullish(this_arg, rule.unresolved_mark)
        },
    }
}

fn has_same_receiver(rule: &UnArgumentSpread, target: &Node, this_arg: &Node) -> (yes: bool)
    ensures
        yes <==> same_receiver(rule@, target@, this_arg@),
{
    match target_receiver(target) {
        Some(receiver) => {
            exprs_structurally_equal(this_arg, receiver) && receiver_is_stable(
                receiver,
                &rule.stable_bindings,
            )
        },
        None => {
            if is_receiver_bearing_target(target) {
                is_super_prop(target) && is_this(this_arg)
            } else {
                is_reflect_nullish(this_arg, rule.unresolved_mark)
            }
        },
    }
}

/// The arguments that are spread for the argument list `t`: an array literal comes out of
/// its TypeScript wrappers, anything else out of its parentheses alone.
pub open spec fn spread_list(t: Tree) -> Tree {
    let bare = without_parens(t);
    if without_types(bare) is Array {
        without_types(bare)
    } else {
        bare
    }
}

fn output_arguments(arguments: &Node) -> (out: Node)
    ensures
        out@ == spread_list(arguments@),
{
    let arguments = strip_parens_owned(arguments.clone());
    let normalized = strip_transparent_types(&arguments);
    if is_array(normalized) {
        normalized.clone()
    } else {
        arguments
    }
}

/// What becomes of `Reflect.apply(target_expr, this_expr, arguments)` where `Reflect` and
/// `apply` are what they seem to be.
pub open spec fn reflect_spread(
    rule: SpreadFacts,
    target_expr: Tree,
    this_expr: Tree,
    arguments: Tree,
) -> Option<Tree> {
    if !named(without_types(target_expr), "eval"@) && same_receiver(
        rule,
        without_types(target_expr),
        without_types(this_expr),
    ) {
        Some(
            direct_spread_call(
                Span::dummy(),
                SyntaxContext::empty(),
                target_expr,
                spread_list(arguments),
                seq![],
            ),
        )
    } else {
        None
    }
}

/// What becomes of the call `t`, if it is a call `Reflect.apply(target, receiver, arguments)`
/// that can be written as a direct call.
pub open spec fn reflect_converted(rule: SpreadFacts, in_with: bool, t: Tree) -> Option<
    Tree,
> {
    match t {
        Tree::Call { span, callee, args, .. } => {
            let object = object_of(*callee, "apply"@);
            if !dynamic_place(rule, in_with, span) && object is Some && global(
                object->0,
                "Reflect"@,
                rule.unresolved_mark,
            ) && args.len() == 3 && plain(args[0]) is Some && plain(args[1]) is Some && plain(
                args[2],
            ) is Some {
                reflect_spread(rule, plain(args[0])->0, plain(args[1])->0, plain(args[2])->0)
            } else {
                None
            }
        },
        _ => None,
    }
}

fn is_reflect_apply(callee: &Node, unresolved_mark: Mark) -> (yes: bool)
    ensures
        yes <==> (object_of(callee@, "apply"@) is Some && global(
            object_of(callee@, "apply"@)->0,
            "Reflect"@,
            unresolved_mark,
        )),
{
    match static_member(callee, "apply") {
        Some(object) => is_global(object, "Reflect", unresolved_mark),
        None => false,
    }
}

fn make_reflect_spread(
    rule: &UnArgumentSpread,
    target_expr: &Node,
    this_expr: &Node,
    arguments: &Node,
) -> (out: Option<Node>)
    ensures
        match out {
            Some(out) => reflect_spread(rule@, target_expr@, this_expr@, arguments@) == Some(out@),
            None => reflect_spread(rule@, target_expr@, this_expr@, arguments@) is None,
        },
{
    let target = strip_transparent_types(target_expr);
    let this_arg = strip_transparent_types(this_expr);
    if is_named(target, "eval") || !has_same_receiver(rule, target, this_arg) {
        return None;
    }
    Some(make_direct_spread_call(target_expr.clone(), output_arguments(arguments)))
}

/// Writes the call `Reflect.apply(target, receiver, arguments)` as a direct call of the
/// target, where that has the same receiver and `Reflect` is the global.
pub fn try_convert_reflect_apply(rule: &UnArgumentSpread, in_with: bool, call: &Node) -> (out:
    Option<Node>)
    ensures
        match out {
            Some(out) => reflect_converted(rule@, in_with, call@) == Some(out@),
            None => reflect_converted(rule@, in_with, call@) is None,
        },
{
    match call {
        Node::Call { span, callee, args, .. } => {
            assert(trees(args@).len() == args@.len());
            if is_dynamic_place(rule, in_with, *span) || !is_reflect_apply(
                callee,
                rule.unresolved_mark,
            ) || args.len() != 3 {
                return None;
            }
            assert(trees(args@)[0] == args@[0]@);
            assert(trees(args@)[1] == args@[1]@);
            assert(trees(args@)[2] == args@[2]@);
            match (plain_arg(&args[0]), plain_arg(&args[1]), plain_arg(&args[2])) {
                (Some(target), Some(this_arg), Some(arguments)) => {
                    make_reflect_spread(rule, target, this_arg, arguments)
                },
                _ => None,
            }
        },
        _ => None,
    }
}

/// The value of `t`, if `t` is an assignment `temp = value` to an identifier; with the
/// identifier.
pub open spec fn memoized(t: Tree) -> Option<(IdentView, Tree)> {
    match t {
        Tree::Assign { op, left, right, .. } => if op == AssignOp::Assign && pattern_name(
            *left,
        ) is Some {
            Some((pattern_name(*left)->0, *right))
        } else {
            None
        },
        _ => None,
    }
}

fn memoized_value(node: &Node) -> (out: Option<(&Ident, &Node)>)
    ensures
        match out {
            Some((temp, value)) => memoized(node@) == Some((temp@, value@)),
            None => memoized(node@) is None,
        },
{
    match node {
        Node::Assign { op, left, right, .. } => {
            if *op != AssignOp::Assign {
                return None;
            }
            match pattern_ident(left) {
                Some(ident) => Some((ident, &**right)),
                None => None,
            }
        },
        _ => None,
    }
}

/// The receiver that `(temp = receiver)` keeps in the temporary `first_arg`.
pub open spec fn memoized_receiver(receiver_expr: Tree, first_arg: Tree) -> Option<Tree> {
    match memoized(without_parens(receiver_expr)) {
        Some((temp, source)) => if reads(first_arg, binding_of(temp)) {
            Some(source)
        } else {
            None
        },
        None => None,
    }
}

/// A copy of the receiver that `(temp = receiver)` keeps in the temporary `first_arg`.
pub fn memoized_receiver_source(receiver_expr: &Node, first_arg: &Node) -> (receiver: Option<
    Node,
>)
    ensures
        match receiver {
            Some(receiver) => memoized_receiver(receiver_expr@, first_arg@) == Some(receiver@),
            None => memoized_receiver(receiver_expr@, first_arg@) is None,
        },
{
    match memoized_value(strip_parens(receiver_expr)) {
        Some((temp, source)) => if is_read_of(first_arg, temp) {
            Some(source.clone())
        } else {
            None
        },
        None => None,
    }
}

/// What becomes of the callee `function` of `function.apply(this_arg, ..)` in a direct call
/// with the same receiver.
pub open spec fn direct_callee(mark: Mark, function: Tree, this_arg: Tree) -> Option<Tree> {
    match function {
        Tree::Member { span, obj, prop } => if (this_arg is Ident || this_arg is This) && placeless(
            this_arg,
        ) == placeless(*obj) {
            Some(function)
        } else {
            match memoized_receiver(*obj, this_arg) {
                Some(receiver) => Some(Tree::Member { span, obj: Box::new(receiver), prop }),
                None => None,
            }
        },
        _ => if this_arg is Null || unresolved_undefined(this_arg, mark) {
            Some(function)
        } else {
            None
        },
    }
}

fn direct_callee_of(function: Node, this_arg: &Node, unresolved_mark: Mark) -> (out: Result<
    Node,
    Node,
>)
    ensures
        match out {
            Ok(callee) => direct_callee(unresolved_mark, function@, this_arg@) == Some(callee@),
            Err(same) => direct_callee(unresolved_mark, function@, this_arg@) is None && same@
                == function@,
        },
{
    match function {
        Node::Member { span, obj, prop } => {
            if (is_ident(this_arg) || is_this(this_arg)) && exprs_structurally_equal(
                this_arg,
                &obj,
            ) {
                return Ok(Node::Member { span, obj, prop });
            }
            match memoized_receiver_source(&obj, this_arg) {
                Some(receiver) => Ok(Node::Member { span, obj: Box::new(receiver), prop }),
                None => Err(Node::Member { span, obj, prop }),
            }
        },
        _ => {
            if is_null(this_arg) || is_unresolved_undefined(this_arg, unresolved_mark) {
                Ok(function)
            } else {
                Err(function)
            }
        },
    }
}

fn is_ident(expr: &Node) -> (yes: bool)
    ensures
        yes <==> expr@ is Ident,
{
    match expr {
        Node::Ident { .. } => true,
        _ => false,
    }
}

/// The function and the two plain arguments of a call `function.apply(first, second)`.
pub open spec fn apply_parts(t: Tree) -> Option<(Tree, Tree, Tree)> {
    match t {
        Tree::Call { callee, args, .. } => {
            let function = object_of(*callee, "apply"@);
            if function is Some && args.len() == 2 && plain(args[0]) is Some && plain(
                args[1],
            ) is Some {
                Some((function->0, plain(args[0])->0, plain(args[1])->0))
            } else {
                None
            }
        },
        _ => None,
    }
}

/// What becomes of the call `t`, if it is a call `function.apply(receiver, arguments)` that
/// can be written as a direct call.
pub open spec fn apply_converted(mark: Mark, t: Tree) -> Option<Tree> {
    match (t, apply_parts(t)) {
        (
            Tree::Call { span, ctxt, types, .. },
            Some((function, this_arg, arguments)),
        ) => match direct_callee(mark, function, this_arg) {
            Some(direct) => Some(direct_spread_call(span, ctxt, direct, arguments, types)),
            None => None,
        },
        _ => None,
    }
}

/// `t` is a call of `Reflect.apply` with three arguments, whatever `Reflect` means there.
pub open spec fn names_reflect_apply(t: Tree) -> bool {
    t matches Tree::Call { callee, args, .. } && object_of(*callee, "apply"@) is Some && named(
        object_of(*callee, "apply"@)->0,
        "Reflect"@,
    ) && args.len() == 3
}

/// What becomes of the call `t`, if it is a call through `apply` that can be written as a
/// direct call.
pub open spec fn converted(rule: SpreadFacts, in_with: bool, t: Tree) -> Option<Tree> {
    if names_reflect_apply(t) {
        reflect_converted(rule, in_with, t)
    } else {
        apply_converted(rule.unresolved_mark, t)
    }
}

fn is_reflect_apply_call(call: &Node) -> (yes: bool)
    ensures
        yes <==> names_reflect_apply(call@),
{
    match call {
        Node::Call { callee, args, .. } => {
            assert(trees(args@).len() == args@.len());
            match static_member(callee, "apply") {
                Some(object) => args.len() == 3 && is_named(object, "Reflect"),
                None => false,
            }
        },
        _ => false,
    }
}

/// The last argument of a call with plain arguments.
fn last_argument(args: Vec<Node>) -> (expr: Box<Node>)
    requires
        args.len() > 0,
        plain(args@.last()@) is Some,
    ensures
        plain(args@.last()@) == Some(expr@),
{
    let mut args = args;
    match args.pop() {
        Some(Node::Arg { expr, .. }) => expr,
        _ => {
            assert(false);
            Box::new(Node::Hole)
        },
    }
}

/// Writes the call `function.apply(receiver, arguments)` as a direct call of the function
/// where that has the same receiver, or gives the call back.
pub fn try_convert_function_apply(call: Node, unresolved_mark: Mark) -> (out: Result<Node, Node>)
    ensures
        match out {
            Ok(direct) => apply_converted(unresolved_mark, call@) == Some(direct@),
            Err(same) => apply_converted(unresolved_mark, call@) is None && same@ == call@,
        },
{
    match call {
        Node::Call { span, ctxt, callee, args, types } => {
            assert(trees(args@).len() == args@.len());
            assert(forall|k: int|
                0 <= k < args@.len() ==> trees(args@)[k] == (#[trigger] args@[k])@);
            if args.len() != 2 || plain_arg(&args[1]).is_none() || !is_apply_member(&callee) {
                return Err(Node::Call { span, ctxt, callee, args, types });
            }
            match *callee {
                Node::Member { span: member_span, obj, prop } => {
                    let direct = match plain_arg(&args[0]) {
                        Some(this_arg) => direct_callee_of(*obj, this_arg, unresolved_mark),
                        None => Err(*obj),
                    };
                    match direct {
                        Ok(direct) => Ok(
                            make_direct_spread_call_with_parts(
                                span,
                                ctxt,
                                Box::new(direct),
                                last_argument(args),
                                types,
                            ),
                        ),
                        Err(obj) => {
                            let member = Node::Member {
                                span: member_span,
                                obj: Box::new(obj),
                                prop,
                            };
                            assert(member@ == callee@);
                            Err(Node::Call { span, ctxt, callee: Box::new(member), args, types })
                        },
                    }
                },
                other => Err(Node::Call { span, ctxt, callee: Box::new(other), args, types }),
            }
        },
        _ => Err(call),
    }
}

fn is_apply_member(callee: &Node) -> (yes: bool)
    ensures
        yes <==> object_of(callee@, "apply"@) is Some,
{
    static_member(callee, "apply").is_some()
}

/// Writes a call through `apply` as a direct call where that means the same, or gives the
/// call back.
pub fn try_convert_apply(rule: &UnArgumentSpread, in_with: bool, call: Node) -> (out: Result<
    Node,
    Node,
>)
    ensures
        match out {
            Ok(direct) => converted(rule@, in_with, call@) == Some(direct@),
            Err(same) => converted(rule@, in_with, call@) is None && same@ == call@,
        },
{
    if is_reflect_apply_call(&call) {
        return match try_convert_reflect_apply(rule, in_with, &call) {
            Some(direct) => Ok(direct),
            None => Err(call),
        };
    }
    try_convert_function_apply(call, rule.unresolved_mark)
}

/// The temporary and the member expression of a statement `temp = object.method`.
pub open spec fn method_assignment(t: Tree) -> Option<(IdentView, Tree)> {
    match t {
        Tree::ExprStmt { expr, .. } => match memoized(*expr) {
            Some((temp, method)) => if method is Member {
                Some((temp, method))
            } else {
                None
            },
            None => None,
        },
        _ => None,
    }
}

/// The temporary and the member expression of a statement `temp = object.method`.
pub fn memoized_method_assignment(stmt: &Node) -> (out: Option<(&Ident, &Node)>)
    ensures
        match out {
            Some((temp, method)) => method_assignment(stmt@) == Some((temp@, method@)),
            None => method_assignment(stmt@) is None,
        },
{
    match stmt {
        Node::ExprStmt { expr, .. } => match memoized_value(expr) {
            Some((temp, method)) => if object_of_member(method).is_some() {
                Some((temp, method))
            } else {
                None
            },
            None => None,
        },
        _ => None,
    }
}

/// The call that a statement consists of.
pub open spec fn statement_call(t: Tree) -> Option<Tree> {
    match t {
        Tree::ExprStmt { expr, .. } => if *expr is Call {
            Some(*expr)
        } else {
            None
        },
        _ => None,
    }
}

fn is_call(expr: &Node) -> (yes: bool)
    ensures
        yes <==> expr@ is Call,
{
    match expr {
        Node::Call { .. } => true,
        _ => false,
    }
}

/// The call that a statement consists of.
pub fn expr_stmt_call(stmt: &Node) -> (call: Option<&Node>)
    ensures
        match call {
            Some(call) => statement_call(stmt@) == Some(call@),
            None => statement_call(stmt@) is None,
        },
{
    match stmt {
        Node::ExprStmt { expr, .. } => if is_call(expr) {
            Some(&**expr)
        } else {
            None
        },
        _ => None,
    }
}

/// The arguments of a direct call that stand for the argument list `t` of `apply`: the
/// elements of an array literal without holes, else `...t`.
pub open spec fn listed_args(t: Tree) -> Seq<Tree> {
    match t {
        Tree::Array { elems, .. } => if exists|i: int|
            0 <= i < elems.len() && #[trigger] elems[i] is Hole {
            seq![spread_arg(t)]
        } else {
            elems
        },
        _ => seq![spread_arg(t)],
    }
}

fn has_hole(elems: &Vec<Node>) -> (yes: bool)
    ensures
        yes <==> exists|i: int|
            0 <= i < trees(elems@).len() && #[trigger] trees(elems@)[i] is Hole,
{
    let ghost all = trees(elems@);
    let mut i: usize = 0;
    while i < elems.len()
        invariant
            i <= elems.len(),
            all == trees(elems@),
            forall|k: int| 0 <= k < i ==> !(#[trigger] all[k] is Hole),
        decreases elems.len() - i,
    {
        assert(all[i as int] == elems@[i as int]@);
        match &elems[i] {
            Node::Hole => {
                return true;
            },
            _ => {},
        }
        i += 1;
    }
    false
}

fn one_spread_arg(arguments: Node) -> (args: Vec<Node>)
    ensures
        trees(args@) == seq![spread_arg(arguments@)],
{
    let mut args: Vec<Node> = Vec::new();
    args.push(Node::Arg { spread: Some(Span::dummy()), expr: Box::new(arguments) });
    assert(trees(args@) =~= seq![spread_arg(arguments@)]);
    args
}

/// The arguments of a direct call that stand for the argument list `arg` of `apply`.
pub fn args_from_apply_arg(arg: Node) -> (args: Vec<Node>)
    ensures
        trees(args@) == listed_args(arg@),
{
    match arg {
        Node::Array { span, elems } => {
            if has_hole(&elems) {
                one_spread_arg(Node::Array { span, elems })
            } else {
                elems
            }
        },
        _ => one_spread_arg(arg),
    }
}

/// The receiver of the direct call for `temp = object.method; temp.apply(first_arg, ..)`,
/// with the temporary that held it, if there is one.
pub open spec fn split_receiver(object: Tree, first_arg: Tree) -> Option<(Tree, Seq<IdentView>)> {
    if placeless(first_arg) == placeless(object) {
        Some((object, seq![]))
    } else {
        match memoized_receiver(object, first_arg) {
            Some(receiver) => Some((receiver, seq![read_ident(first_arg)->0])),
            None => None,
        }
    }
}

/// The statement for `temp = object.method; temp.apply(receiver, arguments)`.
pub open spec fn split_call(
    span: Span,
    ctxt: SyntaxContext,
    callee: Tree,
    arguments: Tree,
    types: Seq<Tree>,
) -> Tree {
    Tree::ExprStmt {
        span,
        expr: Box::new(
            Tree::Call {
                span,
                ctxt,
                callee: Box::new(callee),
                args: listed_args(arguments),
                types,
            },
        ),
    }
}

/// Some of `ids` is used in the statements.
pub open spec fn one_used(stmts: Seq<Tree>, ids: Seq<Binding>) -> bool {
    exists|i: int| 0 <= i < ids.len() && some_uses(stmts, #[trigger] ids[i], false)
}

/// The statement that `temp = method` and the call `t` of `temp.apply` become, with the
/// temporaries that it does without.
pub open spec fn split_joined(temp: IdentView, method: Tree, t: Tree) -> Option<
    (Tree, Seq<IdentView>),
> {
    match (method, t, apply_parts(t)) {
        (
            Tree::Member { span: member_span, obj, prop },
            Tree::Call { span, ctxt, types, .. },
            Some((function, first_arg, arguments)),
        ) => match split_receiver(*obj, first_arg) {
            Some((receiver, temps)) => if reads(function, binding_of(temp)) {
                Some(
                    (
                        split_call(
                            span,
                            ctxt,
                            Tree::Member { span: member_span, obj: Box::new(receiver), prop },
                            arguments,
                            types,
                        ),
                        seq![temp] + temps,
                    ),
                )
            } else {
                None
            },
            None => None,
        },
        _ => None,
    }
}

/// The statement that the two statements `first` and `second` become, if they are
/// `temp = object.method` and `temp.apply(receiver, arguments)`, and the statements behind
/// them do not use the temporaries; with the temporaries.
pub open spec fn split_converted(first: Tree, second: Tree, rest: Seq<Tree>) -> Option<
    (Tree, Seq<IdentView>),
> {
    match (method_assignment(first), statement_call(second)) {
        (Some((temp, method)), Some(call)) => match split_joined(temp, method, call) {
            Some((stmt, temps)) => if one_used(rest, bindings_of(temps)) {
                None
            } else {
                Some((stmt, temps))
            },
            None => None,
        },
        _ => None,
    }
}

/// One statement in place of two, and the temporaries that it does without.
pub struct SplitMemoizedApplyRewrite {
    pub stmt: Node,
    pub removable_bindings: Vec<Ident>,
}

fn is_one_used(idents: &Vec<Ident>, stmts: &Vec<Node>, from: usize) -> (yes: bool)
    requires
        from <= stmts.len(),
    ensures
        yes <==> one_used(
            trees(stmts@).skip(from as int),
            bindings_of(ident_views(idents@)),
        ),
{
    let ghost ids = bindings_of(ident_views(idents@));
    let ghost rest = trees(stmts@).skip(from as int);
    let mut i: usize = 0;
    while i < idents.len()
        invariant
            i <= idents.len(),
            from <= stmts.len(),
            ids == bindings_of(ident_views(idents@)),
            rest == trees(stmts@).skip(from as int),
            forall|k: int| 0 <= k < i ==> !some_uses(rest, #[trigger] ids[k], false),
        decreases idents.len() - i,
    {
        if ident_is_used_in_stmts_excluding_bindings(&idents[i], stmts, from) {
            assert(some_uses(rest, ids[i as int], false));
            return true;
        }
        i += 1;
    }
    false
}

fn split_receiver_of(object: &Node, first_arg: &Node) -> (out: Option<(Node, Vec<Ident>)>)
    ensures
        match out {
            Some((receiver, temps)) => split_receiver(object@, first_arg@) == Some(
                (receiver@, ident_views(temps@)),
            ),
            None => split_receiver(object@, first_arg@) is None,
        },
{
    let mut temps: Vec<Ident> = Vec::new();
    if exprs_structurally_equal(first_arg, object) {
        assert(ident_views(temps@) =~= seq![]);
        return Some((object.clone(), temps));
    }
    let receiver_temp = ident_expr(first_arg)?;
    let receiver = memoized_receiver_source(object, first_arg)?;
    temps.push(receiver_temp.clone());
    assert(ident_views(temps@) =~= seq![receiver_temp@]);
    Some((receiver, temps))
}

/// The function and the two plain arguments of a call `function.apply(first, second)`.
fn parts_of_apply(call: &Node) -> (out: Option<(&Node, &Node, &Node)>)
    ensures
        match out {
            Some((function, first, second)) => apply_parts(call@) == Some(
                (function@, first@, second@),
            ),
            None => apply_parts(call@) is None,
        },
{
    match call {
        Node::Call { callee, args, .. } => {
            assert(trees(args@).len() == args@.len());
            if args.len() != 2 {
                return None;
            }
            assert(trees(args@)[0] == args@[0]@);
            assert(trees(args@)[1] == args@[1]@);
            match (static_member(callee, "apply"), plain_arg(&args[0]), plain_arg(&args[1])) {
                (Some(function), Some(first), Some(second)) => Some((function, first, second)),
                _ => None,
            }
        },
        _ => None,
    }
}

fn join_split_apply(temp: &Ident, method: &Node, call: &Node) -> (out: Option<
    SplitMemoizedApplyRewrite,
>)
    ensures
        match out {
            Some(rewrite) => split_joined(temp@, method@, call@) == Some(
                (rewrite.stmt@, ident_views(rewrite.removable_bindings@)),
            ),
            None => split_joined(temp@, method@, call@) is None,
        },
{
    match (method, call) {
        (
            Node::Member { span: member_span, obj, prop },
            Node::Call { span, ctxt, types, .. },
        ) => {
            let (function, first_arg, arguments) = parts_of_apply(call)?;
            if !is_read_of(function, temp) {
                return None;
            }
            let (receiver, temps) = split_receiver_of(obj, first_arg)?;
            let mut removable_bindings: Vec<Ident> = Vec::new();
            removable_bindings.push(temp.clone());
            let mut temps = temps;
            let ghost others = temps@;
            removable_bindings.append(&mut temps);
            assert(ident_views(removable_bindings@) =~= seq![temp@] + ident_views(others));
            let callee = Node::Member {
                span: *member_span,
                obj: Box::new(receiver),
                prop: Box::new((**prop).clone()),
            };
            let ghost callee_tree = callee@;
            assert(callee_tree == Tree::Member {
                span: *member_span,
                obj: Box::new(receiver@),
                prop: Box::new(prop@),
            });
            let direct = Node::Call {
                span: *span,
                ctxt: *ctxt,
                callee: Box::new(callee),
                args: args_from_apply_arg(arguments.clone()),
                types: clone_list(types),
            };
            assert(direct@ == *split_call(
                *span,
                *ctxt,
                callee_tree,
                arguments@,
                trees(types@),
            )->ExprStmt_expr);
            Some(
                SplitMemoizedApplyRewrite {
                    stmt: Node::ExprStmt { span: *span, expr: Box::new(direct) },
                    removable_bindings,
                },
            )
        },
        _ => None,
    }
}

/// Joins `temp = object.method` and `temp.apply(receiver, arguments)`, where the statements
/// from the index `from` on, which stand behind the two, do not use the temporaries.
pub fn try_convert_split_memoized_apply(
    method_stmt: &Node,
    apply_stmt: &Node,
    stmts: &Vec<Node>,
    from: usize,
) -> (out: Option<SplitMemoizedApplyRewrite>)
    requires
        from <= stmts.len(),
    ensures
        match out {
            Some(rewrite) => split_converted(
                method_stmt@,
                apply_stmt@,
                trees(stmts@).skip(from as int),
            ) == Some((rewrite.stmt@, ident_views(rewrite.removable_bindings@))),
            None => split_converted(
                method_stmt@,
                apply_stmt@,
                trees(stmts@).skip(from as int),
            ) is None,
        },
{
    let (temp, method) = memoized_method_assignment(method_stmt)?;
    let call = expr_stmt_call(apply_stmt)?;
    let rewrite = join_split_apply(temp, method, call)?;
    if is_one_used(&rewrite.removable_bindings, stmts, from) {
        return None;
    }
    Some(rewrite)
}

/// The statements `stmts` from the index `index` on behind the statements `done`, with each
/// pair joined whose temporaries are declared for nothing else.
pub open spec fn joined_from(done: Seq<Tree>, stmts: Seq<Tree>, index: int) -> Seq<Tree>
    decreases stmts.len() - index,
{
    if index < 0 || index >= stmts.len() {
        done
    } else {
        match join_at(done, stmts, index) {
            Some((stmt, temps)) => joined_from(
                removed(done, bindings_of(temps)).push(stmt),
                stmts,
                index + 2,
            ),
            None => joined_from(done.push(stmts[index]), stmts, index + 1),
        }
    }
}

/// The statement that the two statements at `index` become behind the statements `done`,
/// with the temporaries whose declarations leave `done`.
pub open spec fn join_at(done: Seq<Tree>, stmts: Seq<Tree>, index: int) -> Option<
    (Tree, Seq<IdentView>),
> {
    if 0 <= index && index + 1 < stmts.len() {
        match split_converted(
            stmts[index],
            stmts[index + 1],
            stmts.skip(index + 2),
        ) {
            Some((stmt, temps)) => if removable(done, bindings_of(temps)) {
                Some((stmt, temps))
            } else {
                None
            },
            None => None,
        }
    } else {
        None
    }
}

/// The statements with each pair `temp = object.method`, `temp.apply(receiver, arguments)`
/// joined that can be.
pub open spec fn joined(stmts: Seq<Tree>) -> Seq<Tree> {
    joined_from(seq![], stmts, 0)
}

fn try_join_at(done: &Vec<Node>, stmts: &Vec<Node>, index: usize) -> (out: Option<
    SplitMemoizedApplyRewrite,
>)
    requires
        index < stmts.len(),
    ensures
        match out {
            Some(rewrite) => join_at(trees(done@), trees(stmts@), index as int) == Some(
                (rewrite.stmt@, ident_views(rewrite.removable_bindings@)),
            ),
            None => join_at(trees(done@), trees(stmts@), index as int) is None,
        },
{
    assert(trees(stmts@)[index as int] == stmts@[index as int]@);
    if stmts.len() - index < 2 {
        return None;
    }
    assert(trees(stmts@)[index + 1] == stmts@[index + 1]@);
    let rewrite = try_convert_split_memoized_apply(
        &stmts[index],
        &stmts[index + 1],
        stmts,
        index + 2,
    )?;
    if can_remove_prior_uninitialized_decls(done, &rewrite.removable_bindings) {
        Some(rewrite)
    } else {
        None
    }
}

/// Joins each pair `temp = object.method`, `temp.apply(receiver, arguments)` of the
/// statements that can be joined.
pub fn join_stmts(stmts: Vec<Node>) -> (out: Vec<Node>)
    ensures
        trees(out@) == joined(trees(stmts@)),
{
    let ghost all = trees(stmts@);
    let mut old_stmts = stmts;
    let mut out: Vec<Node> = Vec::new();
    let mut index: usize = 0;
    while index < old_stmts.len()
        invariant
            index <= old_stmts.len() == all.len(),
            forall|k: int| index <= k < all.len() ==> (#[trigger] old_stmts@[k])@ == all[k],
            joined(all) == joined_from(trees(out@), all, index as int),
        decreases old_stmts.len() - index,
    {
        proof {
            lemma_join_ahead(trees(out@), trees(old_stmts@), all, index as int);
        }
        match try_join_at(&out, &old_stmts, index) {
            Some(rewrite) => {
                remove_prior_uninitialized_decls(&mut out, &rewrite.removable_bindings);
                out.push(rewrite.stmt);
                index += 2;
            },
            None => {
                let stmt = take_out(&mut old_stmts, index);
                out.push(stmt);
                index += 1;
            },
        }
    }
    out
}

/// What becomes of the statements at an index depends on the statements from there on.
proof fn lemma_join_ahead(done: Seq<Tree>, a: Seq<Tree>, b: Seq<Tree>, index: int)
    requires
        0 <= index,
        a.len() == b.len(),
        forall|k: int| index <= k < b.len() ==> a[k] == b[k],
    ensures
        join_at(done, a, index) == join_at(done, b, index),
{
    if index + 1 < b.len() {
        assert(a.skip(index + 2) =~= b.skip(index + 2));
    }
}

impl Rewriting for SpreadFacts {
    /// The state tells whether the syntax stands in the body of a `with` statement.
    open spec fn entered(&self, state: bool, t: Tree) -> bool {
        state
    }

    open spec fn entered_with(&self, state: bool) -> bool {
        true
    }

    open spec fn left(&self, state: bool, t: Tree) -> Tree {
        if self.level.rank() < RewriteLevel::Standard.rank() {
            t
        } else {
            match t {
                Tree::Call { .. } => match converted(*self, state, t) {
                    Some(direct) => direct,
                    None => t,
                },
                Tree::Block { meta, stmts } => Tree::Block { meta, stmts: joined(stmts) },
                Tree::FunctionBody { span, stmts } => Tree::FunctionBody {
                    span,
                    stmts: joined(stmts),
                },
                Tree::SwitchCase { span, test, cons } => Tree::SwitchCase {
                    span,
                    test,
                    cons: joined(cons),
                },
                _ => t,
            }
        }
    }
}

impl Rule for UnArgumentSpread {
    type Facts = SpreadFacts;

    open spec fn facts(&self) -> SpreadFacts {
        self@
    }

    fn enter(&self, state: bool, node: &Node) -> (inner: bool) {
        state
    }

    fn enter_with(&self, state: bool) -> (inner: bool) {
        true
    }

    fn leave(&self, state: bool, node: Node) -> (out: Node) {
        if self.level.rank() < RewriteLevel::Standard.rank() {
            return node;
        }
        match node {
            Node::Call { .. } => match try_convert_apply(self, state, node) {
                Ok(direct) => direct,
                Err(same) => same,
            },
            Node::Block { meta, stmts } => Node::Block { meta, stmts: join_stmts(stmts) },
            Node::FunctionBody { span, stmts } => Node::FunctionBody {
                span,
                stmts: join_stmts(stmts),
            },
            Node::SwitchCase { span, test, cons } => Node::SwitchCase {
                span,
                test,
                cons: join_stmts(cons),
            },
            _ => node,
        }
    }
}

/// What the rule goes by in the module `m`.
pub open spec fn module_facts(m: ModuleView, mark: Mark, level: RewriteLevel) -> SpreadFacts {
    SpreadFacts {
        unresolved_mark: mark,
        level,
        stable_bindings: stable_bindings(m),
        top_level_direct_eval: module_evals(m),
        direct_eval_scopes: module_eval_scopes(m),
    }
}

/// What the rule makes of the module `m`.
pub open spec fn spread_module(m: ModuleView, mark: Mark, level: RewriteLevel) -> ModuleView {
    ModuleView {
        span: m.span,
        body: rewritten_list(module_facts(m, mark, level), false, m.body),
    }
}

/// What the rule makes of a list of statements that stands by itself.
pub open spec fn spread_stmts(rule: SpreadFacts, stmts: Seq<Tree>) -> Seq<Tree> {
    let parts = rewritten_list(rule, false, stmts);
    if rule.level.rank() < RewriteLevel::Standard.rank() {
        parts
    } else {
        joined(parts)
    }
}

impl UnArgumentSpread {
    /// The rule that takes identifiers with `unresolved_mark` for globals.
    pub fn new(unresolved_mark: Mark, level: RewriteLevel) -> (rule: UnArgumentSpread)
        ensures
            rule@ == (SpreadFacts {
                unresolved_mark,
                level,
                stable_bindings: Set::empty(),
                top_level_direct_eval: false,
                direct_eval_scopes: Seq::empty(),
            }),
    {
        UnArgumentSpread {
            unresolved_mark,
            level,
            stable_bindings: BindingSet::new(),
            top_level_direct_eval: false,
            direct_eval_scopes: Vec::new(),
        }
    }

    /// Rewrites the module.
    pub fn visit_mut_module(&mut self, module: &mut Module)
        ensures
            final(self)@ == module_facts(
                old(module)@,
                old(self).unresolved_mark,
                old(self).level,
            ),
            final(module)@ == spread_module(
                old(module)@,
                old(self).unresolved_mark,
                old(self).level,
            ),
    {
        self.stable_bindings = collect_stable_bindings(module);
        let scopes = collect_direct_eval_scopes(module);
        self.top_level_direct_eval = scopes.top_level;
        self.direct_eval_scopes = scopes.functions;
        let mut body: Vec<Node> = Vec::new();
        std::mem::swap(&mut module.body, &mut body);
        module.body = rewrite_list(self, false, body);
    }

    /// Rewrites statements that stand by themselves.
    pub fn visit_mut_stmts(&self, stmts: &mut Vec<Node>)
        ensures
            trees(final(stmts)@) == spread_stmts(self@, trees(old(stmts)@)),
    {
        let mut parts: Vec<Node> = Vec::new();
        std::mem::swap(stmts, &mut parts);
        *stmts = rewrite_list(self, false, parts);
        if self.level.rank() >= RewriteLevel::Standard.rank() {
            let mut parts: Vec<Node> = Vec::new();
            std::mem::swap(stmts, &mut parts);
            *stmts = join_stmts(parts);
        }
    }
}

} // verus!
