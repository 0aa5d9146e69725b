//! Bindings: what declares them, what writes to them, and which of them are stable.
use vstd::prelude::*;
use vstd::seq_lib::seq_to_set_is_finite;

use crate::syntax::{
    lemma_trees, opt_tree, trees, Ident, IdentView, Module, ModuleView, Node, SpecifierKind,
    SyntaxContext, Tree, TypedKind, VarDeclKind,
};
use crate::walk::{children_of, lemma_children_smaller, seen};

verus! {

broadcast use lemma_trees;

/// What makes an identifier the binding that it is.
pub type Binding = (Seq<char>, SyntaxContext);

/// The binding of `ident`.
pub open spec fn binding_of(ident: IdentView) -> Binding {
    (ident.sym, ident.ctxt)
}

/// `t` reads the binding `id`.
pub open spec fn reads(t: Tree, id: Binding) -> bool {
    t matches Tree::Ident { ident } && binding_of(ident) == id
}

/// Whether `node` reads the binding of `ident`.
pub fn is_read_of(node: &Node, ident: &Ident) -> (yes: bool)
    ensures
        yes <==> reads(node@, binding_of(ident@)),
{
    match node {
        Node::Ident { ident: here } => here.ctxt == ident.ctxt && here.sym == ident.sym,
        _ => false,
    }
}

/// A binding.
#[derive(PartialEq, Eq, Debug)]
pub struct BindingId {
    pub sym: String,
    pub ctxt: SyntaxContext,
}

impl View for BindingId {
    type V = Binding;

    open spec fn view(&self) -> Binding {
        (self.sym@, self.ctxt)
    }
}

impl BindingId {
    /// The binding of `ident`.
    pub fn of(ident: &Ident) -> (id: BindingId)
        ensures
            id@ == binding_of(ident@),
    {
        BindingId { sym: ident.sym.clone(), ctxt: ident.ctxt }
    }
}

/// A set of bindings, as a list in which no binding occurs twice.
#[derive(Debug)]
pub struct BindingSet {
    ids: Vec<BindingId>,
}

/// The bindings of a list, one by one.
spec fn listed(ids: Seq<BindingId>) -> Seq<Binding> {
    Seq::new(ids.len(), |i: int| ids[i]@)
}

impl View for BindingSet {
    type V = Set<Binding>;

    closed spec fn view(&self) -> Set<Binding> {
        listed(self.ids@).to_set()
    }
}

impl BindingSet {
    /// No binding occurs twice.
    #[verifier::type_invariant]
    spec fn distinct(self) -> bool {
        listed(self.ids@).no_duplicates()
    }

    /// The set without an element.
    pub fn new() -> (set: BindingSet)
        ensures
            set@ == Set::<Binding>::empty(),
    {
        let set = BindingSet { ids: Vec::new() };
        assert(set@ =~= Set::empty());
        set
    }

    /// The number of bindings in the set.
    pub fn len(&self) -> (n: usize)
        ensures
            self@.finite(),
            n == self@.len(),
    {
        proof {
            use_type_invariant(self);
            listed(self.ids@).unique_seq_to_set();
            seq_to_set_is_finite(listed(self.ids@));
        }
        self.ids.len()
    }

    /// Whether the binding of `ident` is in the set.
    pub fn contains(&self, ident: &Ident) -> (yes: bool)
        ensures
            yes <==> self@.contains(binding_of(ident@)),
    {
        self.contains_id(&BindingId::of(ident))
    }

    /// Whether `id` is in the set.
    pub fn contains_id(&self, id: &BindingId) -> (yes: bool)
        ensures
            yes <==> self@.contains(id@),
    {
        let ghost all = listed(self.ids@);
        let mut i: usize = 0;
        while i < self.ids.len()
            invariant
                i <= self.ids.len(),
                all == listed(self.ids@),
                forall|k: int| 0 <= k < i ==> #[trigger] all[k] != id@,
            decreases self.ids.len() - i,
        {
            if self.ids[i].ctxt == id.ctxt && self.ids[i].sym == id.sym {
                assert(all[i as int] == id@);
                return true;
            }
            i += 1;
        }
        false
    }

    /// Puts the binding of `ident` into the set.
    pub fn insert(&mut self, ident: &Ident)
        ensures
            final(self)@ == old(self)@.insert(binding_of(ident@)),
    {
        self.insert_id(BindingId::of(ident));
    }

    fn insert_id(&mut self, id: BindingId)
        ensures
            final(self)@ == old(self)@.insert(id@),
    {
        proof {
            use_type_invariant(&*self);
        }
        let ghost before = self@;
        if self.contains_id(&id) {
            assert(before =~= before.insert(id@));
            return;
        }
        let ghost all = listed(self.ids@);
        let mut ids: Vec<BindingId> = Vec::new();
        std::mem::swap(&mut ids, &mut self.ids);
        ids.push(id);
        assert(listed(ids@) =~= all.push(id@));
        proof {
            assert forall|i: int, j: int|
                0 <= i < all.len() + 1 && 0 <= j < all.len() + 1 && i != j implies all.push(id@)[i]
                != all.push(id@)[j] by {
                if i == all.len() {
                    assert(all.contains(all[j]));
                }
                if j == all.len() {
                    assert(all.contains(all[i]));
                }
            }
            assert forall|other: Binding| #[trigger] all.push(id@).contains(other) == (
            all.contains(other) || other == id@) by {
                if all.contains(other) {
                    let i = choose|i: int| 0 <= i < all.len() && all[i] == other;
                    assert(all.push(id@)[i] == other);
                }
                assert(all.push(id@)[all.len() as int] == id@);
            }
        }
        self.ids = ids;
        assert(self@ =~= before.insert(id@));
    }

    /// The bindings of the set that are not in `other`.
    pub fn difference(&self, other: &BindingSet) -> (out: BindingSet)
        ensures
            out@ == self@.difference(other@),
    {
        let ghost all = listed(self.ids@);
        let mut out = BindingSet::new();
        let mut i: usize = 0;
        while i < self.ids.len()
            invariant
                i <= self.ids.len(),
                all == listed(self.ids@),
                out@ == all.take(i as int).to_set().difference(other@),
            decreases self.ids.len() - i,
        {
            let id = &self.ids[i];
            if !other.contains_id(id) {
                out.insert_id(BindingId { sym: id.sym.clone(), ctxt: id.ctxt });
            }
            i += 1;
            proof {
                let ahead = all.take(i - 1);
                assert(all.take(i as int) =~= ahead.push(id@));
                assert forall|b: Binding| #[trigger] ahead.push(id@).contains(b) == (
                ahead.contains(b) || b == id@) by {
                    if ahead.contains(b) {
                        let k = choose|k: int| 0 <= k < ahead.len() && ahead[k] == b;
                        assert(ahead.push(id@)[k] == b);
                    }
                    assert(ahead.push(id@)[ahead.len() as int] == id@);
                }
                assert(out@ =~= all.take(i as int).to_set().difference(other@));
            }
        }
        assert(all.take(i as int) =~= all);
        out
    }
}

/// A pattern of a declaration that binds `id`.
pub open spec fn pattern_binds(t: Tree, id: Binding) -> bool
    decreases t,
{
    match t {
        Tree::PatIdent { ident, .. } => binding_of(ident) == id,
        Tree::PatShorthand { ident, .. } => binding_of(ident) == id,
        Tree::PatArray { elems, .. } => some_pattern_binds(elems, id),
        Tree::PatObject { props, .. } => some_pattern_binds(props, id),
        Tree::PatProp { value, .. } => pattern_binds(*value, id),
        Tree::PatAssign { left, .. } => pattern_binds(*left, id),
        Tree::PatRest { arg, .. } => pattern_binds(*arg, id),
        _ => false,
    }
}

/// One of the patterns of the list binds `id`.
pub open spec fn some_pattern_binds(list: Seq<Tree>, id: Binding) -> bool
    decreases list,
{
    list.len() > 0 && (some_pattern_binds(list.drop_last(), id) || pattern_binds(list.last(), id))
}

/// Puts what the pattern `node` binds into `out`.
pub fn collect_const_pattern_ids(node: &Node, out: &mut BindingSet)
    ensures
        forall|id: Binding| #[trigger]
            final(out)@.contains(id) <==> old(out)@.contains(id) || pattern_binds(node@, id),
    decreases node,
{
    match node {
        Node::PatIdent { ident, .. } => out.insert(ident),
        Node::PatShorthand { ident, .. } => out.insert(ident),
        Node::PatArray { elems, .. } => collect_const_pattern_list(elems, out),
        Node::PatObject { props, .. } => collect_const_pattern_list(props, out),
        Node::PatProp { value, .. } => collect_const_pattern_ids(value, out),
        Node::PatAssign { left, .. } => collect_const_pattern_ids(left, out),
        Node::PatRest { arg, .. } => collect_const_pattern_ids(arg, out),
        _ => {},
    }
}

fn collect_const_pattern_list(list: &Vec<Node>, out: &mut BindingSet)
    ensures
        forall|id: Binding| #[trigger]
            final(out)@.contains(id) <==> old(out)@.contains(id) || some_pattern_binds(
                trees(list@),
                id,
            ),
    decreases list,
{
    let ghost before = out@;
    let ghost all = trees(list@);
    let mut i: usize = 0;
    while i < list.len()
        invariant
            i <= list.len(),
            all == trees(list@),
            forall|id: Binding| #[trigger]
                out@.contains(id) <==> before.contains(id) || some_pattern_binds(
                    all.take(i as int),
                    id,
                ),
        decreases list.len() - i,
    {
        collect_const_pattern_ids(&list[i], out);
        i += 1;
        assert(all.take(i as int).drop_last() =~= all.take(i - 1));
    }
    assert(all.take(i as int) =~= all);
}

/// An assignment to the target `t` writes to `id`.
pub open spec fn assigns(t: Tree, id: Binding) -> bool
    decreases t,
{
    match t {
        Tree::Ident { ident } => binding_of(ident) == id,
        Tree::PatIdent { ident, .. } => binding_of(ident) == id,
        Tree::PatShorthand { ident, .. } => binding_of(ident) == id,
        Tree::Paren { expr, .. } => assigns(*expr, id),
        Tree::Typed { kind, expr, .. } => kind != TypedKind::ConstAssertion && assigns(*expr, id),
        Tree::PatArray { elems, .. } => some_assigns(elems, id),
        Tree::PatObject { props, .. } => some_assigns(props, id),
        Tree::PatProp { value, .. } => assigns(*value, id),
        Tree::PatAssign { left, .. } => assigns(*left, id),
        Tree::PatRest { arg, .. } => assigns(*arg, id),
        _ => false,
    }
}

/// An assignment to one of the targets of the list writes to `id`.
pub open spec fn some_assigns(list: Seq<Tree>, id: Binding) -> bool
    decreases list,
{
    list.len() > 0 && (some_assigns(list.drop_last(), id) || assigns(list.last(), id))
}

/// Puts what an assignment to the target `node` writes to into `out`.
pub fn collect_assignment_ids(node: &Node, out: &mut BindingSet)
    ensures
        forall|id: Binding| #[trigger]
            final(out)@.contains(id) <==> old(out)@.contains(id) || assigns(node@, id),
    decreases node,
{
    match node {
        Node::Ident { ident } => out.insert(ident),
        Node::PatIdent { ident, .. } => out.insert(ident),
        Node::PatShorthand { ident, .. } => out.insert(ident),
        Node::Paren { expr, .. } => collect_assignment_ids(expr, out),
        Node::Typed { kind, expr, .. } => {
            if *kind != TypedKind::ConstAssertion {
                collect_assignment_ids(expr, out);
            }
        },
        Node::PatArray { elems, .. } => collect_assignment_list(elems, out),
        Node::PatObject { props, .. } => collect_assignment_list(props, out),
        Node::PatProp { value, .. } => collect_assignment_ids(value, out),
        Node::PatAssign { left, .. } => collect_assignment_ids(left, out),
        Node::PatRest { arg, .. } => collect_assignment_ids(arg, out),
        _ => {},
    }
}

fn collect_assignment_list(list: &Vec<Node>, out: &mut BindingSet)
    ensures
        forall|id: Binding| #[trigger]
            final(out)@.contains(id) <==> old(out)@.contains(id) || some_assigns(trees(list@), id),
    decreases list,
{
    let ghost before = out@;
    let ghost all = trees(list@);
    let mut i: usize = 0;
    while i < list.len()
        invariant
            i <= list.len(),
            all == trees(list@),
            forall|id: Binding| #[trigger]
                out@.contains(id) <==> before.contains(id) || some_assigns(all.take(i as int), id),
        decreases list.len() - i,
    {
        collect_assignment_ids(&list[i], out);
        i += 1;
        assert(all.take(i as int).drop_last() =~= all.take(i - 1));
    }
    assert(all.take(i as int) =~= all);
}

/// One of the specifiers of an import brings in a namespace as `id`.
pub open spec fn some_namespace(list: Seq<Tree>, id: Binding) -> bool
    decreases list,
{
    list.len() > 0 && (some_namespace(list.drop_last(), id) || namespace(list.last(), id))
}

/// `t` brings in a namespace as `id`.
pub open spec fn namespace(t: Tree, id: Binding) -> bool {
    t matches Tree::Specifier { kind, local, .. } && kind == SpecifierKind::Namespace
        && binding_of(local) == id
}

/// `t` declares `id` as a binding that cannot be given another value: a `const`, or the
/// namespace of an import.
pub open spec fn declares_const(t: Tree, id: Binding) -> bool
    decreases t, children_of(t).len() + 1,
{
    match t {
        Tree::Import { specifiers, .. } => some_namespace(specifiers, id),
        Tree::VarDecl { kind: VarDeclKind::Const, decls, .. } => some_declares_const(decls, id),
        _ => part_declares_const(t, children_of(t).len(), id),
    }
}

/// One of the first `n` parts of `t` declares `id` as a constant.
pub open spec fn part_declares_const(t: Tree, n: nat, id: Binding) -> bool
    decreases t, n,
{
    0 < n <= children_of(t).len() && (part_declares_const(t, (n - 1) as nat, id) || {
        proof {
            lemma_children_smaller(t);
        }
        declares_const(children_of(t)[n - 1], id)
    })
}

/// One of the declarators of a `const` declares `id` as a constant, or its value does.
pub open spec fn some_declares_const(list: Seq<Tree>, id: Binding) -> bool
    decreases list, 0nat,
{
    list.len() > 0 && (some_declares_const(list.drop_last(), id) || match list.last() {
        Tree::Declarator { name, init, .. } => pattern_binds(*name, id) || match init {
            Some(init) => declares_const(*init, id),
            None => false,
        },
        _ => false,
    })
}

/// What `t` itself writes to, not one of its parts.
pub open spec fn own_write(t: Tree, id: Binding) -> bool {
    match t {
        Tree::Assign { left, .. } => assigns(*left, id),
        Tree::Update { arg, .. } => assigns(*arg, id),
        Tree::ForEach { left, .. } => assigns(*left, id),
        _ => false,
    }
}

/// Something in `t` writes to `id` after its declaration. The defaults in the patterns of
/// a `const` are not looked at.
pub open spec fn writes_to(t: Tree, id: Binding) -> bool
    decreases t, children_of(t).len() + 1,
{
    match t {
        Tree::Import { .. } => false,
        Tree::VarDecl { kind: VarDeclKind::Const, decls, .. } => some_writes_to(decls, id),
        _ => own_write(t, id) || part_writes_to(t, children_of(t).len(), id),
    }
}

/// Something in the first `n` parts of `t` writes to `id`.
pub open spec fn part_writes_to(t: Tree, n: nat, id: Binding) -> bool
    decreases t, n,
{
    0 < n <= children_of(t).len() && (part_writes_to(t, (n - 1) as nat, id) || {
        proof {
            lemma_children_smaller(t);
        }
        writes_to(children_of(t)[n - 1], id)
    })
}

/// Something in the values of the declarators of a `const` writes to `id`.
pub open spec fn some_writes_to(list: Seq<Tree>, id: Binding) -> bool
    decreases list, 0nat,
{
    list.len() > 0 && (some_writes_to(list.drop_last(), id) || match list.last() {
        Tree::Declarator { init: Some(init), .. } => writes_to(*init, id),
        _ => false,
    })
}

/// What the module declares as constant, and what it writes to.
pub struct StableBindingCollector {
    pub const_bindings: BindingSet,
    pub writes: BindingSet,
}

impl StableBindingCollector {
    /// Looks at `node` and at all that is in it.
    pub fn visit(&mut self, node: &Node)
        ensures
            forall|id: Binding| #[trigger]
                final(self).const_bindings@.contains(id) <==> old(self).const_bindings@.contains(id)
                    || declares_const(node@, id),
            forall|id: Binding| #[trigger]
                final(self).writes@.contains(id) <==> old(self).writes@.contains(id) || writes_to(
                    node@,
                    id,
                ),
        decreases node@, children_of(node@).len() + 1,
    {
        match node {
            Node::Import { specifiers, .. } => self.visit_specifiers(specifiers),
            Node::VarDecl { kind: VarDeclKind::Const, decls, .. } => self.visit_const(decls),
            _ => {
                match node {
                    Node::Assign { left, .. } => collect_assignment_ids(left, &mut self.writes),
                    Node::Update { arg, .. } => collect_assignment_ids(arg, &mut self.writes),
                    Node::ForEach { left, .. } => collect_assignment_ids(left, &mut self.writes),
                    _ => {},
                }
                self.visit_children(node);
            },
        }
    }

    fn visit_children(&mut self, node: &Node)
        ensures
            forall|id: Binding| #[trigger]
                final(self).const_bindings@.contains(id) <==> old(self).const_bindings@.contains(id)
                    || part_declares_const(node@, children_of(node@).len(), id),
            forall|id: Binding| #[trigger]
                final(self).writes@.contains(id) <==> old(self).writes@.contains(id)
                    || part_writes_to(node@, children_of(node@).len(), id),
        decreases node@, children_of(node@).len(),
    {
        let ghost t = node@;
        let ghost before = *self;
        let parts = node.children();
        let mut i: usize = 0;
        while i < parts.len()
            invariant
                i <= parts.len(),
                t == node@,
                seen(parts@) == children_of(t),
                forall|id: Binding| #[trigger]
                    self.const_bindings@.contains(id) <==> before.const_bindings@.contains(id)
                        || part_declares_const(t, i as nat, id),
                forall|id: Binding| #[trigger]
                    self.writes@.contains(id) <==> before.writes@.contains(id) || part_writes_to(
                        t,
                        i as nat,
                        id,
                    ),
            decreases parts.len() - i,
        {
            proof {
                lemma_children_smaller(t);
                assert(seen(parts@)[i as int] == parts@[i as int]@);
            }
            self.visit(parts[i]);
            i += 1;
        }
    }

    fn visit_specifiers(&mut self, list: &Vec<Node>)
        ensures
            forall|id: Binding| #[trigger]
                final(self).const_bindings@.contains(id) <==> old(self).const_bindings@.contains(id)
                    || some_namespace(trees(list@), id),
            final(self).writes == old(self).writes,
    {
        let ghost before = *self;
        let ghost all = trees(list@);
        let mut i: usize = 0;
        while i < list.len()
            invariant
                i <= list.len(),
                all == trees(list@),
                self.writes == before.writes,
                forall|id: Binding| #[trigger]
                    self.const_bindings@.contains(id) <==> before.const_bindings@.contains(id)
                        || some_namespace(all.take(i as int), id),
            decreases list.len() - i,
        {
            match &list[i] {
                Node::Specifier { kind: SpecifierKind::Namespace, local, .. } => {
                    self.const_bindings.insert(local);
                },
                _ => {},
            }
            i += 1;
            assert(all.take(i as int).drop_last() =~= all.take(i - 1));
        }
        assert(all.take(i as int) =~= all);
    }

    fn visit_const(&mut self, list: &Vec<Node>)
        ensures
            forall|id: Binding| #[trigger]
                final(self).const_bindings@.contains(id) <==> old(self).const_bindings@.contains(id)
                    || some_declares_const(trees(list@), id),
            forall|id: Binding| #[trigger]
                final(self).writes@.contains(id) <==> old(self).writes@.contains(id)
                    || some_writes_to(trees(list@), id),
        decreases trees(list@), 0nat,
    {
        let ghost before = *self;
        let ghost all = trees(list@);
        let mut i: usize = 0;
        while i < list.len()
            invariant
                i <= list.len(),
                all == trees(list@),
                forall|id: Binding| #[trigger]
                    self.const_bindings@.contains(id) <==> before.const_bindings@.contains(id)
                        || some_declares_const(all.take(i as int), id),
                forall|id: Binding| #[trigger]
                    self.writes@.contains(id) <==> before.writes@.contains(id) || some_writes_to(
                        all.take(i as int),
                        id,
                    ),
            decreases list.len() - i,
        {
            assert(all[i as int] == list@[i as int]@);
            match &list[i] {
                Node::Declarator { name, init, .. } => {
                    collect_const_pattern_ids(name, &mut self.const_bindings);
                    assert(all[i as int]->Declarator_init == opt_tree(*init));
                    match init {
                        Some(value) => {
                            assert(opt_tree(*init) == Some(Box::new((**value)@)));
                            assert(decreases_to!(all => all[i as int]));
                            assert(decreases_to!(
                                all[i as int] => all[i as int]->Declarator_init->0
                            ));
                            self.visit(value);
                        },
                        None => {},
                    }
                },
                _ => {},
            }
            i += 1;
            assert(all.take(i as int).drop_last() =~= all.take(i - 1));
        }
        assert(all.take(i as int) =~= all);
    }
}

/// The module declares `id` as a constant.
pub open spec fn module_declares_const(m: ModuleView, id: Binding) -> bool {
    exists|i: int| 0 <= i < m.body.len() && #[trigger] declares_const(m.body[i], id)
}

/// Something in the module writes to `id` after its declaration.
pub open spec fn module_writes_to(m: ModuleView, id: Binding) -> bool {
    exists|i: int| 0 <= i < m.body.len() && #[trigger] writes_to(m.body[i], id)
}

/// `id` has one and the same value wherever the module reads it.
pub open spec fn stable(m: ModuleView, id: Binding) -> bool {
    module_declares_const(m, id) && !module_writes_to(m, id)
}

/// The bindings that have one and the same value wherever the module reads them.
pub open spec fn stable_bindings(m: ModuleView) -> Set<Binding> {
    Set::new(|id: Binding| stable(m, id))
}

/// The bindings that have one and the same value wherever the module reads them: those
/// that it declares as constants and never writes to.
pub fn collect_stable_bindings(module: &Module) -> (ids: BindingSet)
    ensures
        ids@ == stable_bindings(module@),
{
    let ghost m = module@;
    let mut collector = StableBindingCollector {
        const_bindings: BindingSet::new(),
        writes: BindingSet::new(),
    };
    let mut i: usize = 0;
    while i < module.body.len()
        invariant
            i <= module.body.len(),
            m == module@,
            forall|id: Binding| #[trigger]
                collector.const_bindings@.contains(id) <==> exists|k: int|
                    0 <= k < i && #[trigger] declares_const(m.body[k], id),
            forall|id: Binding| #[trigger]
                collector.writes@.contains(id) <==> exists|k: int|
                    0 <= k < i && #[trigger] writes_to(m.body[k], id),
        decreases module.body.len() - i,
    {
        assert(m.body[i as int] == module.body@[i as int]@);
        collector.visit(&module.body[i]);
        i += 1;
    }
    let ids = collector.const_bindings.difference(&collector.writes);
    assert(ids@ =~= stable_bindings(m));
    ids
}

} // verus!
