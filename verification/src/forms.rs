//! The forms of syntax that the laws speak of, in the terms of the syntax alone.
use vstd::prelude::*;

use crate::bindings::Binding;
use crate::expr_utils::{without_parens, without_types};
use crate::syntax::{Mark, Tree, UnaryOp};

verus! {

/// What stands in the parentheses, however many, around `t`.
pub open spec fn bare(t: Tree) -> Tree
    decreases t,
{
    if t is Paren {
        bare(*t->Paren_expr)
    } else {
        t
    }
}

/// What stands in the parentheses and under the TypeScript wrappers, in whatever order,
/// around `t`.
pub open spec fn untyped(t: Tree) -> Tree
    decreases t,
{
    if t is Paren {
        untyped(*t->Paren_expr)
    } else if t is Typed {
        untyped(*t->Typed_expr)
    } else {
        t
    }
}

/// Parentheses are taken off as long as there are any, and nothing else is.
pub proof fn law_parentheses_come_off(t: Tree)
    ensures
        without_parens(t) == bare(t),
        !(without_parens(t) is Paren),
    decreases t,
{
    if t is Paren {
        law_parentheses_come_off(*t->Paren_expr);
    }
}

/// Parentheses and TypeScript wrappers are taken off as long as there are any, and nothing
/// else is.
pub proof fn law_wrappers_come_off(t: Tree)
    ensures
        without_types(t) == untyped(t),
        !(without_types(t) is Paren) && !(without_types(t) is Typed),
        untyped(bare(t)) == untyped(t),
    decreases t,
{
    if t is Paren {
        law_wrappers_come_off(*t->Paren_expr);
    } else if t is Typed {
        law_wrappers_come_off(*t->Typed_expr);
    }
}

/// `t` is a number literal with these bits.
pub open spec fn literal(t: Tree, bits: u64) -> bool {
    t matches Tree::Num { bits: here, .. } && here == bits
}

/// `t` is a literal zero, of either sign.
pub open spec fn literal_zero(t: Tree) -> bool {
    literal(t, 0) || literal(t, 0x8000_0000_0000_0000)
}

/// `t` is an identifier of this name.
pub open spec fn called(t: Tree, name: Seq<char>) -> bool {
    t matches Tree::Ident { ident } && ident.sym == name
}

/// `t` is an identifier of this name on which `mark` was put last.
pub open spec fn free(t: Tree, name: Seq<char>, mark: Mark) -> bool {
    t matches Tree::Ident { ident } && ident.sym == name && ident.ctxt.outer == mark.id
}

/// `t` is an identifier with the name and the context of `id`.
pub open spec fn mentions(t: Tree, id: Binding) -> bool {
    t matches Tree::Ident { ident } && ident.sym == id.0 && ident.ctxt == id.1
}

/// `t` is a pattern that consists of an identifier with the name and the context of `id`.
pub open spec fn targets(t: Tree, id: Binding) -> bool {
    t matches Tree::PatIdent { ident, .. } && ident.sym == id.0 && ident.ctxt == id.1
}

/// The object of `t`, if `t` is `object.name`.
pub open spec fn owner(t: Tree, name: Seq<char>) -> Option<Tree> {
    match t {
        Tree::Member { obj, prop, .. } => match *prop {
            Tree::PropIdent { sym, .. } => if sym == name {
                Some(*obj)
            } else {
                None
            },
            _ => None,
        },
        _ => None,
    }
}

/// `t` is an argument that is not spread.
pub open spec fn unspread(t: Tree) -> bool {
    t matches Tree::Arg { spread, .. } && spread is None
}

/// The expression of an argument.
pub open spec fn argument(t: Tree) -> Tree {
    *t->Arg_expr
}

/// `t` is the global `undefined`, or `void 0`.
pub open spec fn undefined(t: Tree, mark: Mark) -> bool {
    free(t, "undefined"@, mark) || (t matches Tree::Unary { op: UnaryOp::Void, arg, .. }
        && literal_zero(bare(*arg)))
}

/// The patterns of which the pattern `t` consists.
pub open spec fn inner_patterns(t: Tree) -> Seq<Tree> {
    match t {
        Tree::PatArray { elems, .. } => elems,
        Tree::PatObject { props, .. } => props,
        Tree::PatProp { value, .. } => seq![*value],
        Tree::PatAssign { left, .. } => seq![*left],
        Tree::PatRest { arg, .. } => seq![*arg],
        _ => seq![],
    }
}

} // verus!
