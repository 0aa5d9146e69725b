//! Small questions about expressions.
use vstd::prelude::*;

use crate::same::{placeless, same_syntax};
use crate::syntax::{Ident, IdentView, Mark, Node, Tree, UnaryOp};

verus! {

/// Whether `text` reads `word`.
pub fn text_is(text: &String, word: &str) -> (same: bool)
    ensures
        same <==> text@ == word@,
{
    *text == word.to_owned()
}

/// `ident` is called `name` and bound nowhere in the file: it names a global.
pub open spec fn unresolved(ident: IdentView, name: Seq<char>, mark: Mark) -> bool {
    ident.sym == name && ident.ctxt.outer == mark.id
}

/// Whether `ident` is called `name` and bound nowhere in the file, where `mark` is the
/// mark of such identifiers.
pub fn is_unresolved_ident(ident: &Ident, name: &str, mark: Mark) -> (yes: bool)
    ensures
        yes <==> unresolved(ident@, name@, mark),
{
    ident.ctxt.outer == mark.id && text_is(&ident.sym, name)
}

/// `t` is the global of the given name.
pub open spec fn global(t: Tree, name: Seq<char>, mark: Mark) -> bool {
    t matches Tree::Ident { ident } && unresolved(ident, name, mark)
}

/// Whether `node` is the global of the given name.
pub fn is_global(node: &Node, name: &str, mark: Mark) -> (yes: bool)
    ensures
        yes <==> global(node@, name@, mark),
{
    match node {
        Node::Ident { ident } => is_unresolved_ident(ident, name, mark),
        _ => false,
    }
}

/// `t` is an identifier of the given name, bound or not.
pub open spec fn named(t: Tree, name: Seq<char>) -> bool {
    t matches Tree::Ident { ident } && ident.sym == name
}

/// Whether `node` is an identifier of the given name, bound or not.
pub fn is_named(node: &Node, name: &str) -> (yes: bool)
    ensures
        yes <==> named(node@, name@),
{
    match node {
        Node::Ident { ident } => text_is(&ident.sym, name),
        _ => false,
    }
}

/// `t` without the parentheses around it.
pub open spec fn without_parens(t: Tree) -> Tree
    decreases t,
{
    match t {
        Tree::Paren { expr, .. } => without_parens(*expr),
        _ => t,
    }
}

/// `node` without the parentheses around it.
pub fn strip_parens(node: &Node) -> (inner: &Node)
    ensures
        inner@ == without_parens(node@),
    decreases node,
{
    match node {
        Node::Paren { expr, .. } => strip_parens(expr),
        _ => node,
    }
}

/// `node` without the parentheses around it.
pub fn strip_parens_owned(node: Node) -> (inner: Node)
    ensures
        inner@ == without_parens(node@),
    decreases node,
{
    match node {
        Node::Paren { expr, .. } => strip_parens_owned(*expr),
        _ => node,
    }
}

/// `t` without the parentheses and the TypeScript wrappers around it.
pub open spec fn without_types(t: Tree) -> Tree
    decreases t,
{
    match t {
        Tree::Paren { expr, .. } => without_types(*expr),
        Tree::Typed { expr, .. } => without_types(*expr),
        _ => t,
    }
}

/// `node` without the parentheses and the TypeScript wrappers around it: what is left is
/// the expression that is evaluated.
pub fn strip_transparent_types(node: &Node) -> (inner: &Node)
    ensures
        inner@ == without_types(node@),
    decreases node,
{
    match node {
        Node::Paren { expr, .. } => strip_transparent_types(expr),
        Node::Typed { expr, .. } => strip_transparent_types(expr),
        _ => node,
    }
}

/// The double with these bits is zero, of either sign.
pub open spec fn zero_bits(bits: u64) -> bool {
    bits == 0 || bits == 0x8000_0000_0000_0000
}

/// The double with these bits is one.
pub open spec fn one_bits(bits: u64) -> bool {
    bits == 0x3ff0_0000_0000_0000
}

/// `t` is the number literal zero.
pub open spec fn zero(t: Tree) -> bool {
    t matches Tree::Num { bits, .. } && zero_bits(bits)
}

/// `t` is the number literal one.
pub open spec fn one(t: Tree) -> bool {
    t matches Tree::Num { bits, .. } && one_bits(bits)
}

/// Whether `node` is the number literal zero.
pub fn is_zero(node: &Node) -> (yes: bool)
    ensures
        yes <==> zero(node@),
{
    match node {
        Node::Num { bits, .. } => *bits == 0 || *bits == 0x8000_0000_0000_0000,
        _ => false,
    }
}

/// Whether `node` is the number literal one.
pub fn is_one(node: &Node) -> (yes: bool)
    ensures
        yes <==> one(node@),
{
    match node {
        Node::Num { bits, .. } => *bits == 0x3ff0_0000_0000_0000,
        _ => false,
    }
}

/// `t` is `void 0`.
pub open spec fn void_zero(t: Tree) -> bool {
    t matches Tree::Unary { op, arg, .. } && op == UnaryOp::Void && zero(without_parens(*arg))
}

/// Whether `node` is `void 0`.
pub fn is_void_zero(node: &Node) -> (yes: bool)
    ensures
        yes <==> void_zero(node@),
{
    match node {
        Node::Unary { op, arg, .. } => *op == UnaryOp::Void && is_zero(strip_parens(arg)),
        _ => false,
    }
}

/// `t` is the global `undefined`, or `void 0`, which is the same value.
pub open spec fn unresolved_undefined(t: Tree, mark: Mark) -> bool {
    global(t, "undefined"@, mark) || void_zero(t)
}

/// Whether `node` is the global `undefined`, or `void 0`.
pub fn is_unresolved_undefined(node: &Node, mark: Mark) -> (yes: bool)
    ensures
        yes <==> unresolved_undefined(node@, mark),
{
    is_global(node, "undefined", mark) || is_void_zero(node)
}

/// `t` is a property name that is not computed, and reads `name`.
pub open spec fn property_named(t: Tree, name: Seq<char>) -> bool {
    t matches Tree::PropIdent { sym, .. } && sym == name
}

/// Whether `node` is a property name that is not computed, and reads `name`.
pub fn is_property_named(node: &Node, name: &str) -> (yes: bool)
    ensures
        yes <==> property_named(node@, name@),
{
    match node {
        Node::PropIdent { sym, .. } => text_is(sym, name),
        _ => false,
    }
}

/// The object of `t`, if `t` is `object.name`.
pub open spec fn object_of(t: Tree, name: Seq<char>) -> Option<Tree> {
    match t {
        Tree::Member { obj, prop, .. } => if property_named(*prop, name) {
            Some(*obj)
        } else {
            None
        },
        _ => None,
    }
}

/// The object of `node`, if `node` is `object.name`.
pub fn static_member<'a>(node: &'a Node, name: &str) -> (object: Option<&'a Node>)
    ensures
        match object {
            Some(object) => object_of(node@, name@) == Some(object@),
            None => object_of(node@, name@) is None,
        },
{
    match node {
        Node::Member { obj, prop, .. } => if is_property_named(prop, name) {
            Some(&**obj)
        } else {
            None
        },
        _ => None,
    }
}

/// The expression of an argument that is not spread.
pub open spec fn plain(arg: Tree) -> Option<Tree> {
    match arg {
        Tree::Arg { spread: None, expr } => Some(*expr),
        _ => None,
    }
}

/// The expression of an argument that is not spread.
pub fn plain_arg(arg: &Node) -> (expr: Option<&Node>)
    ensures
        match expr {
            Some(expr) => plain(arg@) == Some(expr@),
            None => plain(arg@) is None,
        },
{
    match arg {
        Node::Arg { spread: None, expr } => Some(&**expr),
        _ => None,
    }
}

/// The identifier that the expression `t` is.
pub open spec fn read_ident(t: Tree) -> Option<IdentView> {
    match t {
        Tree::Ident { ident } => Some(ident),
        _ => None,
    }
}

/// The identifier that the expression `node` is.
pub fn ident_expr(node: &Node) -> (ident: Option<&Ident>)
    ensures
        match ident {
            Some(ident) => read_ident(node@) == Some(ident@),
            None => read_ident(node@) is None,
        },
{
    match node {
        Node::Ident { ident } => Some(ident),
        _ => None,
    }
}

/// The identifier that the pattern `t` is.
pub open spec fn pattern_name(t: Tree) -> Option<IdentView> {
    match t {
        Tree::PatIdent { ident, .. } => Some(ident),
        _ => None,
    }
}

/// The identifier that the pattern `node` is.
pub fn pattern_ident(node: &Node) -> (ident: Option<&Ident>)
    ensures
        match ident {
            Some(ident) => pattern_name(node@) == Some(ident@),
            None => pattern_name(node@) is None,
        },
{
    match node {
        Node::PatIdent { ident, .. } => Some(ident),
        _ => None,
    }
}

/// Whether two expressions are the same but for their positions.
pub fn exprs_structurally_equal(a: &Node, b: &Node) -> (same: bool)
    ensures
        same <==> placeless(a@) == placeless(b@),
{
    same_syntax(a, b)
}

/// `t` is a call of `eval` by its name, which runs in the scope of the call.
pub open spec fn direct_eval_call(t: Tree) -> bool {
    t matches Tree::Call { callee, .. } && named(without_parens(*callee), "eval"@)
}

/// Whether `node` is a call of `eval` by its name.
pub fn is_direct_eval_call(node: &Node) -> (yes: bool)
    ensures
        yes <==> direct_eval_call(node@),
{
    match node {
        Node::Call { callee, .. } => is_named(strip_parens(callee), "eval"),
        _ => false,
    }
}

} // verus!
