//! Where a direct call of `eval` can change what a name means.
use vstd::prelude::*;

use crate::expr_utils::{direct_eval_call, is_direct_eval_call};
use crate::syntax::{lemma_trees, opt_tree, trees, Module, ModuleView, Node, Span, Tree};
use crate::walk::{children_of, lemma_children_smaller, seen, span_of};

verus! {

broadcast use lemma_trees;

/// A direct call of `eval` runs in the scope in which `t` stands: functions, static
/// blocks and the values of fields, which are scopes of their own, are left out, and so
/// are the types of patterns.
pub open spec fn evals(t: Tree) -> bool
    decreases t, children_of(t).len() + 1,
{
    match t {
        Tree::Function { .. } => false,
        Tree::Arrow { .. } => false,
        Tree::StaticBlock { .. } => false,
        Tree::Constructor { key, .. } => evals(*key),
        Tree::Accessor { key, .. } => evals(*key),
        Tree::Field { key, decorators, .. } => evals(*key) || some_evals(decorators),
        Tree::PatIdent { .. } => false,
        Tree::PatArray { elems, .. } => some_evals(elems),
        Tree::PatObject { props, .. } => some_evals(props),
        Tree::PatRest { arg, .. } => evals(*arg),
        Tree::PatShorthand { value, .. } => opt_evals(value),
        _ => direct_eval_call(t) || part_evals(t, children_of(t).len()),
    }
}

/// A direct call of `eval` runs in one of the first `n` parts of `t`.
pub open spec fn part_evals(t: Tree, n: nat) -> bool
    decreases t, n,
{
    0 < n <= children_of(t).len() && (part_evals(t, (n - 1) as nat) || {
        proof {
            lemma_children_smaller(t);
        }
        evals(children_of(t)[n - 1])
    })
}

/// A direct call of `eval` runs in one piece of the list.
pub open spec fn some_evals(list: Seq<Tree>) -> bool
    decreases list, 0nat,
{
    list.len() > 0 && (some_evals(list.drop_last()) || evals(list.last()))
}

/// A direct call of `eval` runs in a part that may be missing.
pub open spec fn opt_evals(part: Option<Box<Tree>>) -> bool
    decreases part, 0nat,
{
    match part {
        Some(part) => evals(*part),
        None => false,
    }
}

/// Whether a direct call of `eval` runs in the scope in which `node` stands.
pub fn has_direct_eval(node: &Node) -> (yes: bool)
    ensures
        yes <==> evals(node@),
    decreases node@, children_of(node@).len() + 1,
{
    match node {
        Node::Function { .. } => false,
        Node::Arrow { .. } => false,
        Node::StaticBlock { .. } => false,
        Node::Constructor { key, .. } => has_direct_eval(key),
        Node::Accessor { key, .. } => has_direct_eval(key),
        Node::Field { key, decorators, .. } => {
            has_direct_eval(key) || some_has_direct_eval(decorators)
        },
        Node::PatIdent { .. } => false,
        Node::PatArray { elems, .. } => some_has_direct_eval(elems),
        Node::PatObject { props, .. } => some_has_direct_eval(props),
        Node::PatRest { arg, .. } => has_direct_eval(arg),
        Node::PatShorthand { value, .. } => opt_has_direct_eval(value),
        _ => is_direct_eval_call(node) || part_has_direct_eval(node),
    }
}

fn part_has_direct_eval(node: &Node) -> (yes: bool)
    ensures
        yes <==> part_evals(node@, children_of(node@).len()),
    decreases node@, children_of(node@).len(),
{
    let ghost t = node@;
    let parts = node.children();
    let mut yes = false;
    let mut i: usize = 0;
    while i < parts.len()
        invariant
            i <= parts.len(),
            t == node@,
            seen(parts@) == children_of(t),
            yes <==> part_evals(t, i as nat),
        decreases parts.len() - i,
    {
        proof {
            lemma_children_smaller(t);
            assert(seen(parts@)[i as int] == parts@[i as int]@);
        }
        let here = has_direct_eval(parts[i]);
        yes = yes || here;
        i += 1;
    }
    yes
}

fn some_has_direct_eval(list: &Vec<Node>) -> (yes: bool)
    ensures
        yes <==> some_evals(trees(list@)),
    decreases trees(list@), 0nat,
{
    let ghost all = trees(list@);
    let mut yes = false;
    let mut i: usize = 0;
    while i < list.len()
        invariant
            i <= list.len(),
            all == trees(list@),
            yes <==> some_evals(all.take(i as int)),
        decreases list.len() - i,
    {
        assert(all[i as int] == list@[i as int]@);
        assert(decreases_to!(all => all[i as int]));
        let here = has_direct_eval(&list[i]);
        yes = yes || here;
        i += 1;
        assert(all.take(i as int).drop_last() =~= all.take(i - 1));
    }
    assert(all.take(i as int) =~= all);
    yes
}

fn opt_has_direct_eval(part: &Option<Box<Node>>) -> (yes: bool)
    ensures
        yes <==> opt_evals(opt_tree(*part)),
    decreases opt_tree(*part), 0nat,
{
    match part {
        Some(inner) => {
            assert(opt_tree(*part) == Some(Box::new((**inner)@)));
            assert(decreases_to!(opt_tree(*part) => opt_tree(*part)->0));
            has_direct_eval(inner)
        },
        None => false,
    }
}

/// The scope that `t` itself opens, if a direct call of `eval` runs in it.
pub open spec fn own_eval_scope(t: Tree) -> Seq<Span> {
    match t {
        Tree::Function { meta, params, body, .. } => if some_evals(params) || opt_evals(body) {
            seq![meta.span]
        } else {
            seq![]
        },
        Tree::Arrow { meta, params, body, .. } => if some_evals(params) || evals(*body) {
            seq![meta.span]
        } else {
            seq![]
        },
        Tree::StaticBlock { span, body } => if evals(*body) {
            seq![span]
        } else {
            seq![]
        },
        Tree::Constructor { meta, params, body, .. } => if some_evals(params) || opt_evals(body) {
            seq![meta.span]
        } else {
            seq![]
        },
        Tree::Accessor { function, .. } => if body_evals(*function) {
            seq![span_of(*function)]
        } else {
            seq![]
        },
        Tree::Field { value: Some(value), .. } => if evals(*value) {
            seq![span_of(*value)]
        } else {
            seq![]
        },
        _ => seq![],
    }
}

/// A direct call of `eval` runs in the body of the function `t`.
pub open spec fn body_evals(t: Tree) -> bool {
    t matches Tree::Function { body, .. } && opt_evals(body)
}

/// The scopes in `t` in which a direct call of `eval` runs, from the outside in and from
/// left to right.
pub open spec fn eval_scopes(t: Tree) -> Seq<Span>
    decreases t, children_of(t).len() + 1,
{
    own_eval_scope(t) + part_eval_scopes(t, children_of(t).len())
}

/// The scopes in the first `n` parts of `t` in which a direct call of `eval` runs.
pub open spec fn part_eval_scopes(t: Tree, n: nat) -> Seq<Span>
    decreases t, n,
{
    if 0 < n <= children_of(t).len() {
        part_eval_scopes(t, (n - 1) as nat) + {
            proof {
                lemma_children_smaller(t);
            }
            eval_scopes(children_of(t)[n - 1])
        }
    } else {
        seq![]
    }
}

fn body_has_direct_eval(node: &Node) -> (yes: bool)
    ensures
        yes <==> body_evals(node@),
{
    match node {
        Node::Function { body, .. } => opt_has_direct_eval(body),
        _ => false,
    }
}

/// The scope that `node` itself opens, if a direct call of `eval` runs in it.
fn add_own_scope(node: &Node, scopes: &mut Vec<Span>)
    ensures
        final(scopes)@ == old(scopes)@ + own_eval_scope(node@),
{
    let ghost before = scopes@;
    match node {
        Node::Function { meta, params, body, .. } => {
            if some_has_direct_eval(params) || opt_has_direct_eval(body) {
                scopes.push(meta.span);
            }
        },
        Node::Arrow { meta, params, body, .. } => {
            if some_has_direct_eval(params) || has_direct_eval(body) {
                scopes.push(meta.span);
            }
        },
        Node::StaticBlock { span, body } => {
            if has_direct_eval(body) {
                scopes.push(*span);
            }
        },
        Node::Constructor { meta, params, body, .. } => {
            if some_has_direct_eval(params) || opt_has_direct_eval(body) {
                scopes.push(meta.span);
            }
        },
        Node::Accessor { function, .. } => {
            if body_has_direct_eval(function) {
                scopes.push(function.span());
            }
        },
        Node::Field { value, .. } => {
            match value {
                Some(inner) => {
                    assert(opt_tree(*value) == Some(Box::new((**inner)@)));
                    if has_direct_eval(inner) {
                        scopes.push(inner.span());
                    }
                },
                None => {
                    assert(opt_tree(*value) is None);
                },
            }
        },
        _ => {},
    }
    assert(scopes@ =~= before + own_eval_scope(node@));
}

/// Adds the scopes in `node` in which a direct call of `eval` runs.
pub fn collect_scopes(node: &Node, scopes: &mut Vec<Span>)
    ensures
        final(scopes)@ == old(scopes)@ + eval_scopes(node@),
    decreases node@,
{
    let ghost t = node@;
    let ghost before = scopes@;
    add_own_scope(node, scopes);
    let parts = node.children();
    let mut i: usize = 0;
    while i < parts.len()
        invariant
            i <= parts.len(),
            t == node@,
            seen(parts@) == children_of(t),
            scopes@ == before + own_eval_scope(t) + part_eval_scopes(t, i as nat),
        decreases parts.len() - i,
    {
        proof {
            lemma_children_smaller(t);
            assert(seen(parts@)[i as int] == parts@[i as int]@);
        }
        collect_scopes(parts[i], scopes);
        i += 1;
        assert(part_eval_scopes(t, i as nat) =~= part_eval_scopes(t, (i - 1) as nat) + eval_scopes(
            children_of(t)[i - 1],
        ));
    }
    assert(scopes@ =~= before + eval_scopes(t));
}

/// Where direct calls of `eval` run in a module.
pub struct DirectEvalScopes {
    /// Whether one runs in the scope of the module itself.
    pub top_level: bool,
    /// The scopes inside the module in which one runs.
    pub functions: Vec<Span>,
}

/// A direct call of `eval` runs in the scope of the module itself.
pub open spec fn module_evals(m: ModuleView) -> bool {
    some_evals(m.body)
}

/// The scopes inside the first `n` items of the module in which a direct call of `eval`
/// runs.
pub open spec fn item_eval_scopes(m: ModuleView, n: nat) -> Seq<Span>
    decreases n,
{
    if 0 < n <= m.body.len() {
        item_eval_scopes(m, (n - 1) as nat) + eval_scopes(m.body[n - 1])
    } else {
        seq![]
    }
}

/// The scopes inside the module in which a direct call of `eval` runs.
pub open spec fn module_eval_scopes(m: ModuleView) -> Seq<Span> {
    item_eval_scopes(m, m.body.len())
}

/// Where direct calls of `eval` run in `module`.
pub fn collect_direct_eval_scopes(module: &Module) -> (scopes: DirectEvalScopes)
    ensures
        scopes.top_level <==> module_evals(module@),
        scopes.functions@ == module_eval_scopes(module@),
{
    let ghost m = module@;
    let top_level = some_has_direct_eval(&module.body);
    let mut functions: Vec<Span> = Vec::new();
    let mut i: usize = 0;
    while i < module.body.len()
        invariant
            i <= module.body.len(),
            m == module@,
            functions@ == item_eval_scopes(m, i as nat),
        decreases module.body.len() - i,
    {
        assert(m.body[i as int] == module.body@[i as int]@);
        collect_scopes(&module.body[i], &mut functions);
        i += 1;
    }
    DirectEvalScopes { top_level, functions }
}

} // verus!
