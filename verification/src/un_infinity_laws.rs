//! What holds of the recovery of `Infinity` as a whole.
use vstd::prelude::*;

use crate::forms::literal;
use crate::occurs::{lemma_occurs, occurs, some_occurs};
use crate::rewrite::{lemma_rewritten_list, rewritten, rewritten_list, rewritten_parts};
use crate::rewrite_laws::{law_parts_rewritten, law_quiet, law_quiet_list, lemma_parts_settled};
use crate::syntax::{BinaryOp, IdentView, Mark, ModuleView, Span, SyntaxContext, Tree, UnaryOp};
use crate::un_infinity::{blocks, infinite, infinite_module, infinity, module_blocks, UnInfinity};
use crate::walk::{children_of, lemma_children_smaller};

verus! {

broadcast use lemma_rewritten_list;

/// A module that binds the name `Infinity` in its own scope, or may bind any name there, is
/// left as it is.
pub proof fn law_bound_name_blocks_all(m: ModuleView, rule: UnInfinity)
    requires
        rule.blocked || module_blocks(m, rule.unresolved_mark),
    ensures
        infinite_module(m, rule) == m,
{
    law_quiet_list(rule, |state: bool| state, true, m.body);
}

/// Inside syntax that binds the name `Infinity`, nothing is rewritten.
pub proof fn law_bound_name_blocks_inside(rule: UnInfinity, state: bool, t: Tree)
    requires
        state || blocks(t, rule.unresolved_mark),
    ensures
        rewritten(rule, state, t) == t,
{
    lemma_blocked_parts(rule, t);
}

proof fn lemma_blocked_parts(rule: UnInfinity, t: Tree)
    ensures
        rewritten_parts(rule, true, t) == t,
{
    law_quiet(rule, |state: bool| state, true, t);
}

/// `t` is `1 / 0` or `-1 / 0`, where the zero is of either sign.
pub open spec fn infinite_quotient(t: Tree) -> bool {
    &&& t matches Tree::Bin { op: BinaryOp::Div, left, right, .. }
    &&& literal(*right, 0) || literal(*right, 0x8000_0000_0000_0000)
    &&& literal(*left, 0x3ff0_0000_0000_0000) || (*left matches Tree::Unary {
        op: UnaryOp::Minus,
        arg,
        ..
    } && literal(*arg, 0x3ff0_0000_0000_0000))
}

/// Nothing but a quotient is rewritten, and of the quotients only those whose divisor is a
/// literal zero, and whose dividend is a literal one or the negation of one.
pub proof fn law_only_infinite_quotients_change(t: Tree, mark: Mark)
    requires
        infinite(t, mark) != t,
    ensures
        t matches Tree::Bin { op, left, right, .. } && {
            &&& op == BinaryOp::Div
            &&& *right matches Tree::Num { bits, .. } && (bits == 0 || bits
                == 0x8000_0000_0000_0000)
            &&& ({
                ||| *left matches Tree::Num { bits, .. } && bits == 0x3ff0_0000_0000_0000
                ||| *left matches Tree::Unary { op: UnaryOp::Minus, arg, .. }
                    && *arg matches Tree::Num { bits, .. } && bits == 0x3ff0_0000_0000_0000
            })
        },
{
}

/// One over zero is the global `Infinity`, in the place of the quotient.
pub proof fn law_one_over_zero(span: Span, one: Tree, zero: Tree, mark: Mark)
    requires
        literal(one, 0x3ff0_0000_0000_0000),
        literal(zero, 0) || literal(zero, 0x8000_0000_0000_0000),
    ensures
        infinite(
            Tree::Bin { span, op: BinaryOp::Div, left: Box::new(one), right: Box::new(zero) },
            mark,
        ) == (Tree::Ident {
            ident: IdentView {
                sym: "Infinity"@,
                ctxt: SyntaxContext { id: mark.ctxt, outer: mark.id },
                span,
                optional: false,
            },
        }),
{
}

/// Minus one over zero is what one over zero in the same place is, negated there.
pub proof fn law_minus_one_over_zero(
    span: Span,
    minus_span: Span,
    one: Tree,
    zero: Tree,
    mark: Mark,
)
    requires
        literal(one, 0x3ff0_0000_0000_0000),
        literal(zero, 0) || literal(zero, 0x8000_0000_0000_0000),
    ensures
        infinite(
            Tree::Bin {
                span,
                op: BinaryOp::Div,
                left: Box::new(
                    Tree::Unary { span: minus_span, op: UnaryOp::Minus, arg: Box::new(one) },
                ),
                right: Box::new(zero),
            },
            mark,
        ) == (Tree::Unary {
            span,
            op: UnaryOp::Minus,
            arg: Box::new(
                infinite(
                    Tree::Bin {
                        span,
                        op: BinaryOp::Div,
                        left: Box::new(one),
                        right: Box::new(zero),
                    },
                    mark,
                ),
            ),
        }),
{
}

/// `Infinity` and `-Infinity` hold no quotient, and the rule leaves them as they are.
proof fn lemma_infinity(rule: UnInfinity, state: bool, t: Tree)
    requires
        infinite_quotient(t),
    ensures
        rewritten(rule, state, infinite(t, rule.unresolved_mark)) == infinite(
            t,
            rule.unresolved_mark,
        ),
        !occurs(infinite(t, rule.unresolved_mark), |u: Tree| infinite_quotient(u)),
{
    let what = |u: Tree| infinite_quotient(u);
    let out = infinite(t, rule.unresolved_mark);
    let name = infinity(t->Bin_span, rule.unresolved_mark);
    lemma_occurs(name, what);
    lemma_occurs(out, what);
    assert(rewritten(rule, state, name) == name);
    if out is Unary {
        assert(children_of(out) =~= seq![name]);
    }
}

/// The rule has nothing left to do on what it made of a piece of syntax.
pub proof fn law_syntax_settles(rule: UnInfinity, state: bool, t: Tree)
    ensures
        rewritten(rule, state, rewritten(rule, state, t)) == rewritten(rule, state, t),
    decreases t,
{
    let mark = rule.unresolved_mark;
    let inner = state || blocks(t, mark);
    let parts = rewritten_parts(rule, inner, t);
    let out = rewritten(rule, state, t);
    if inner {
        law_bound_name_blocks_inside(rule, state, t);
    } else if infinite_quotient(parts) {
        lemma_infinity(rule, state, parts);
    } else {
        assert(out == parts);
        if blocks(out, mark) {
            law_bound_name_blocks_inside(rule, state, out);
        } else {
            lemma_children_smaller(t);
            assert forall|i: int| 0 <= i < children_of(out).len() implies rewritten(
                rule,
                state,
                #[trigger] children_of(out)[i],
            ) == children_of(out)[i] by {
                if t is With {
                    assert(children_of(t)[0] == *t->With_obj);
                    assert(children_of(t)[1] == *t->With_body);
                } else {
                    law_parts_rewritten(rule, state, t);
                }
                assert(children_of(out)[i] == rewritten(rule, state, children_of(t)[i]));
                law_syntax_settles(rule, state, children_of(t)[i]);
            }
            if out is With {
                assert(children_of(out)[0] == *out->With_obj);
                assert(children_of(out)[1] == *out->With_body);
            } else {
                lemma_parts_settled(rule, state, out);
            }
        }
    }
}

/// The rule has nothing left to do on what it made of a module.
pub proof fn law_infinity_settles(m: ModuleView, rule: UnInfinity)
    ensures
        infinite_module(infinite_module(m, rule), rule) == infinite_module(m, rule),
{
    let once = infinite_module(m, rule);
    if rule.blocked || module_blocks(m, rule.unresolved_mark) {
        law_bound_name_blocks_all(m, rule);
    } else if module_blocks(once, rule.unresolved_mark) {
        law_bound_name_blocks_all(once, rule);
    } else {
        let twice = rewritten_list(rule, false, once.body);
        assert forall|i: int| 0 <= i < twice.len() implies #[trigger] twice[i] == once.body[i] by {
            law_syntax_settles(rule, false, m.body[i]);
        }
        assert(twice =~= once.body);
    }
}

proof fn lemma_none_left(rule: UnInfinity, t: Tree)
    requires
        !occurs(t, |u: Tree| blocks(u, rule.unresolved_mark)),
    ensures
        !occurs(rewritten(rule, false, t), |u: Tree| infinite_quotient(u)),
    decreases t,
{
    let mark = rule.unresolved_mark;
    let bound = |u: Tree| blocks(u, mark);
    let what = |u: Tree| infinite_quotient(u);
    lemma_occurs(t, bound);
    lemma_children_smaller(t);
    let parts = rewritten_parts(rule, false, t);
    assert forall|i: int| 0 <= i < children_of(parts).len() implies !occurs(
        #[trigger] children_of(parts)[i],
        what,
    ) by {
        if t is With {
            assert(children_of(t)[0] == *t->With_obj);
            assert(children_of(t)[1] == *t->With_body);
        } else {
            law_parts_rewritten(rule, false, t);
        }
        assert(children_of(parts)[i] == rewritten(rule, false, children_of(t)[i]));
        lemma_none_left(rule, children_of(t)[i]);
    }
    if infinite_quotient(parts) {
        lemma_infinity(rule, false, parts);
    } else {
        lemma_occurs(parts, what);
    }
}

/// In a module in which nothing binds the name `Infinity`, every `1 / 0` and `-1 / 0` is
/// rewritten, wherever it stands.
pub proof fn law_all_recovered(m: ModuleView, rule: UnInfinity)
    requires
        !rule.blocked,
        !module_blocks(m, rule.unresolved_mark),
        !some_occurs(m.body, |t: Tree| blocks(t, rule.unresolved_mark)),
    ensures
        !some_occurs(infinite_module(m, rule).body, |t: Tree| infinite_quotient(t)),
{
    let out = rewritten_list(rule, false, m.body);
    assert forall|i: int| 0 <= i < out.len() implies !occurs(
        #[trigger] out[i],
        |t: Tree| infinite_quotient(t),
    ) by {
        lemma_none_left(rule, m.body[i]);
    }
}

} // verus!
