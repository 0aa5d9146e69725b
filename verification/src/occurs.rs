//! What occurs in a piece of syntax.
use vstd::prelude::*;

use crate::syntax::Tree;
use crate::walk::{children_of, lemma_children_smaller};

verus! {

/// `t` or something in it is as `what` says.
pub open spec fn occurs(t: Tree, what: spec_fn(Tree) -> bool) -> bool
    decreases t, children_of(t).len() + 1,
{
    what(t) || part_occurs(t, children_of(t).len(), what)
}

/// One of the first `n` parts of `t` or something in it is as `what` says.
pub open spec fn part_occurs(t: Tree, n: nat, what: spec_fn(Tree) -> bool) -> bool
    decreases t, n,
{
    0 < n <= children_of(t).len() && (part_occurs(t, (n - 1) as nat, what) || {
        proof {
            lemma_children_smaller(t);
        }
        occurs(children_of(t)[n - 1], what)
    })
}

/// One piece of the list or something in it is as `what` says.
pub open spec fn some_occurs(list: Seq<Tree>, what: spec_fn(Tree) -> bool) -> bool {
    exists|i: int| 0 <= i < list.len() && occurs(#[trigger] list[i], what)
}

proof fn lemma_part_occurs(t: Tree, n: nat, what: spec_fn(Tree) -> bool)
    requires
        n <= children_of(t).len(),
    ensures
        part_occurs(t, n, what) <==> exists|i: int|
            0 <= i < n && occurs(#[trigger] children_of(t)[i], what),
    decreases n,
{
    if n > 0 {
        lemma_part_occurs(t, (n - 1) as nat, what);
        if part_occurs(t, n, what) && !part_occurs(t, (n - 1) as nat, what) {
            assert(occurs(children_of(t)[n - 1], what));
        }
    }
}

/// What occurs in a piece of syntax is the piece itself, or occurs in one of its parts.
pub proof fn lemma_occurs(t: Tree, what: spec_fn(Tree) -> bool)
    ensures
        occurs(t, what) <==> what(t) || some_occurs(children_of(t), what),
{
    lemma_part_occurs(t, children_of(t).len(), what);
}

/// What is as `what` says is also as `also` says, and so it is where it occurs.
pub proof fn lemma_occurs_also(
    t: Tree,
    what: spec_fn(Tree) -> bool,
    also: spec_fn(Tree) -> bool,
)
    requires
        occurs(t, what),
        forall|u: Tree| #[trigger] what(u) ==> also(u),
    ensures
        occurs(t, also),
    decreases t,
{
    lemma_occurs(t, what);
    lemma_occurs(t, also);
    if !what(t) {
        lemma_children_smaller(t);
        let i = choose|i: int|
            0 <= i < children_of(t).len() && occurs(#[trigger] children_of(t)[i], what);
        lemma_occurs_also(children_of(t)[i], what, also);
    }
}

/// What does not occur in a piece of syntax does not occur in its parts.
pub proof fn lemma_absent_in_parts(t: Tree, what: spec_fn(Tree) -> bool)
    requires
        !occurs(t, what),
    ensures
        !what(t),
        forall|i: int|
            0 <= i < children_of(t).len() ==> !occurs(#[trigger] children_of(t)[i], what),
{
    lemma_occurs(t, what);
}

/// `t` and all that is in it, in the order in which a walk from left to right meets it: a
/// piece of syntax before its parts.
pub open spec fn preorder(t: Tree) -> Seq<Tree>
    decreases t, children_of(t).len() + 1,
{
    seq![t] + preorder_parts(t, children_of(t).len())
}

/// The first `n` parts of `t` and all that is in them, in the order in which a walk meets
/// them.
pub open spec fn preorder_parts(t: Tree, n: nat) -> Seq<Tree>
    decreases t, n,
{
    if 0 < n <= children_of(t).len() {
        preorder_parts(t, (n - 1) as nat) + {
            proof {
                lemma_children_smaller(t);
            }
            preorder(children_of(t)[n - 1])
        }
    } else {
        seq![]
    }
}

/// The list and all that is in it, in the order in which a walk meets it.
pub open spec fn preorder_list(list: Seq<Tree>) -> Seq<Tree>
    decreases list.len(),
{
    if list.len() == 0 {
        seq![]
    } else {
        preorder_list(list.drop_last()) + preorder(list.last())
    }
}

/// Something in the sequence is as `what` says.
pub open spec fn met(trace: Seq<Tree>, what: spec_fn(Tree) -> bool) -> bool {
    exists|i: int| 0 <= i < trace.len() && what(#[trigger] trace[i])
}

proof fn lemma_met_concat(a: Seq<Tree>, b: Seq<Tree>, what: spec_fn(Tree) -> bool)
    ensures
        met(a + b, what) <==> met(a, what) || met(b, what),
{
    if met(a, what) {
        let i = choose|i: int| 0 <= i < a.len() && what(#[trigger] a[i]);
        assert((a + b)[i] == a[i]);
    }
    if met(b, what) {
        let i = choose|i: int| 0 <= i < b.len() && what(#[trigger] b[i]);
        assert((a + b)[a.len() + i] == b[i]);
    }
}

/// A walk meets what occurs in a piece of syntax, and nothing else.
pub proof fn lemma_met(t: Tree, what: spec_fn(Tree) -> bool)
    ensures
        met(preorder(t), what) <==> occurs(t, what),
    decreases t, children_of(t).len() + 1,
{
    lemma_met_parts(t, children_of(t).len(), what);
    lemma_met_concat(seq![t], preorder_parts(t, children_of(t).len()), what);
    assert(seq![t][0] == t);
    assert(met(seq![t], what) == what(t));
}

proof fn lemma_met_parts(t: Tree, n: nat, what: spec_fn(Tree) -> bool)
    ensures
        met(preorder_parts(t, n), what) <==> part_occurs(t, n, what),
    decreases t, n,
{
    if 0 < n <= children_of(t).len() {
        lemma_children_smaller(t);
        lemma_met_parts(t, (n - 1) as nat, what);
        lemma_met(children_of(t)[n - 1], what);
        lemma_met_concat(
            preorder_parts(t, (n - 1) as nat),
            preorder(children_of(t)[n - 1]),
            what,
        );
    }
}

/// A walk meets what occurs in a list, and nothing else.
pub proof fn lemma_met_list(list: Seq<Tree>, what: spec_fn(Tree) -> bool)
    ensures
        met(preorder_list(list), what) <==> some_occurs(list, what),
    decreases list.len(),
{
    if list.len() > 0 {
        let ahead = list.drop_last();
        lemma_met_list(ahead, what);
        lemma_met(list.last(), what);
        lemma_met_concat(preorder_list(ahead), preorder(list.last()), what);
        if some_occurs(list, what) {
            let i = choose|i: int| 0 <= i < list.len() && occurs(#[trigger] list[i], what);
            if i < ahead.len() {
                assert(ahead[i] == list[i]);
            }
        }
        if some_occurs(ahead, what) {
            let i = choose|i: int| 0 <= i < ahead.len() && occurs(#[trigger] ahead[i], what);
            assert(list[i] == ahead[i]);
        }
        assert(list[list.len() - 1] == list.last());
    }
}

} // verus!
