//! `Object.prototype.hasOwnProperty.call(object, key)` becomes `Object.hasOwn(object, key)`.
//!
//! The rewrite is safe as long as nothing in the module can put another function in the
//! place of `Object.prototype.hasOwnProperty`: a write to it or to what leads to it, a
//! `with` statement or a direct call of `eval` anywhere in the module stops the rule.
use vstd::prelude::*;

use crate::bindings::{binding_of, Binding, BindingSet};
use crate::expr_utils::{
    global, ident_expr, is_global, is_property_named, is_unresolved_ident, object_of, pattern_ident,
    pattern_name, plain, plain_arg, property_named, read_ident, static_member, strip_parens,
    unresolved, without_parens,
};
use crate::rewrite::{rewrite_list, rewritten_list, Rewriting, Rule};
use crate::rewrite_level::RewriteLevel;
use crate::syntax::{
    lemma_trees, lemma_trees_push, opt_tree, trees, Ident, IdentView, Mark, Module, ModuleView,
    Node, Span, Tree, UnaryOp,
};
use crate::walk::{children_of, lemma_children_smaller, own_ident, seen};

verus! {

broadcast use {lemma_trees, lemma_trees_push};

/// The rule that recovers `Object.hasOwn`.
pub struct UnHasOwnCall {
    /// How far the rule may go.
    pub level: RewriteLevel,
    /// The mark of identifiers that are bound nowhere in the file.
    pub unresolved_mark: Mark,
    /// Whether the module may replace `Object.prototype.hasOwnProperty`.
    pub blocked: bool,
}

/// The object of `t`, if `t` is `object.name`, in parentheses or not.
pub open spec fn inner_object(t: Tree, name: Seq<char>) -> Option<Tree> {
    object_of(without_parens(t), name)
}

/// The identifier `Object` of the callee `Object.prototype.hasOwnProperty.call`.
pub open spec fn has_own_callee(callee: Tree, mark: Mark) -> Option<IdentView> {
    match inner_object(callee, "call"@) {
        Some(method) => match inner_object(method, "hasOwnProperty"@) {
            Some(prototype) => match inner_object(prototype, "prototype"@) {
                Some(object) => if global(without_parens(object), "Object"@, mark) {
                    read_ident(without_parens(object))
                } else {
                    None
                },
                None => None,
            },
            None => None,
        },
        None => None,
    }
}

/// The identifier `Object` of the call `t`, if `t` is
/// `Object.prototype.hasOwnProperty.call(object, key)` with the global `Object`.
pub open spec fn has_own_call(t: Tree, mark: Mark) -> Option<IdentView> {
    match t {
        Tree::Call { callee, args, .. } => if args.len() == 2 && plain(args[0]) is Some && plain(
            args[1],
        ) is Some {
            has_own_callee(*callee, mark)
        } else {
            None
        },
        _ => None,
    }
}

fn match_has_own_callee(callee: &Node, mark: Mark) -> (object: Option<&Ident>)
    ensures
        match object {
            Some(object) => has_own_callee(callee@, mark) == Some(object@),
            None => has_own_callee(callee@, mark) is None,
        },
{
    let method = static_member(strip_parens(callee), "call")?;
    let prototype = static_member(strip_parens(method), "hasOwnProperty")?;
    let object = static_member(strip_parens(prototype), "prototype")?;
    let object = strip_parens(object);
    if !is_global(object, "Object", mark) {
        return None;
    }
    ident_expr(object)
}

/// A copy of the identifier `Object` of `call`, if `call` is
/// `Object.prototype.hasOwnProperty.call(object, key)` with the global `Object`.
pub fn match_has_own_call(call: &Node, mark: Mark) -> (object: Option<Ident>)
    ensures
        match object {
            Some(object) => has_own_call(call@, mark) == Some(object@),
            None => has_own_call(call@, mark) is None,
        },
{
    match call {
        Node::Call { callee, args, .. } => {
            assert(trees(args@).len() == args@.len());
            if args.len() != 2 {
                return None;
            }
            assert(trees(args@)[0] == args@[0]@);
            assert(trees(args@)[1] == args@[1]@);
            if plain_arg(&args[0]).is_none() || plain_arg(&args[1]).is_none() {
                return None;
            }
            let object = match_has_own_callee(callee, mark)?;
            Some(object.clone())
        },
        _ => None,
    }
}

/// `object.hasOwn`.
pub open spec fn has_own_member(object: IdentView) -> Tree {
    Tree::Member {
        span: Span::dummy(),
        obj: Box::new(Tree::Ident { ident: object }),
        prop: Box::new(Tree::PropIdent { span: Span::dummy(), sym: "hasOwn"@ }),
    }
}

/// The call `t` with the callee `object.hasOwn`.
pub open spec fn recovered(t: Tree, object: IdentView) -> Tree {
    match t {
        Tree::Call { span, ctxt, args, types, .. } => Tree::Call {
            span,
            ctxt,
            callee: Box::new(has_own_member(object)),
            args,
            types,
        },
        _ => t,
    }
}

fn make_has_own_member(object: Ident) -> (member: Node)
    ensures
        member@ == has_own_member(object@),
{
    let obj = Node::Ident { ident: object };
    let prop = Node::PropIdent { span: Span::dummy(), sym: "hasOwn".to_owned() };
    assert(obj@ == Tree::Ident { ident: object@ });
    assert(prop@ == Tree::PropIdent { span: Span::dummy(), sym: "hasOwn"@ });
    Node::Member { span: Span::dummy(), obj: Box::new(obj), prop: Box::new(prop) }
}

fn recover(call: Node, object: Ident) -> (out: Node)
    ensures
        out@ == recovered(call@, object@),
{
    match call {
        Node::Call { span, ctxt, args, types, .. } => Node::Call {
            span,
            ctxt,
            callee: Box::new(make_has_own_member(object)),
            args,
            types,
        },
        _ => call,
    }
}

/// What a walk through a module has found so far.
pub ghost struct Found {
    /// The module may replace `Object.prototype.hasOwnProperty`.
    pub blocked: bool,
    /// The variables that were declared as `Object`.
    pub object_aliases: Set<Binding>,
    /// The variables that were declared as `Object.prototype`.
    pub prototype_aliases: Set<Binding>,
}

impl Found {
    /// `t` is the global `Object`, or a variable declared as it.
    pub open spec fn object(self, t: Tree, mark: Mark) -> bool {
        t matches Tree::Ident { ident } && (unresolved(ident, "Object"@, mark)
            || self.object_aliases.contains(binding_of(ident)))
    }

    /// `t` is `Object.prototype`, or a variable declared as it.
    pub open spec fn prototype(self, t: Tree, mark: Mark) -> bool {
        ||| t matches Tree::Ident { ident } && self.prototype_aliases.contains(binding_of(ident))
        ||| object_of(t, "prototype"@) is Some && self.object(object_of(t, "prototype"@)->0, mark)
    }

    /// `t` is `Object.prototype`, or its property `hasOwnProperty` or `hasOwn`.
    pub open spec fn target(self, t: Tree, mark: Mark) -> bool {
        t matches Tree::Member { obj, prop, .. } && if self.object(*obj, mark) {
            property_named(*prop, "prototype"@)
        } else {
            self.prototype(*obj, mark) && (property_named(*prop, "hasOwnProperty"@)
                || property_named(*prop, "hasOwn"@))
        }
    }

    /// `t` by itself shows that the module may replace `Object.prototype.hasOwnProperty`;
    /// with `writing`, `t` stands in what is written to.
    pub open spec fn unsafe_here(self, t: Tree, mark: Mark, writing: bool) -> bool {
        ||| t is With
        ||| t matches Tree::Call { callee, .. } && global(*callee, "eval"@, mark)
        ||| writing && own_ident(t) is Some && unresolved(own_ident(t)->0, "Object"@, mark)
        ||| writing && self.target(t, mark)
    }

    /// The variable that `t` declares with the value `init`.
    pub open spec fn declared(t: Tree) -> Option<(IdentView, Tree)> {
        match t {
            Tree::Declarator { name, init: Some(init), .. } => match pattern_name(*name) {
                Some(ident) => Some((ident, *init)),
                None => None,
            },
            _ => None,
        }
    }

    /// What is found once `t` is seen, before its parts.
    pub open spec fn note(self, t: Tree, mark: Mark, writing: bool) -> Found {
        let blocked = self.blocked || self.unsafe_here(t, mark, writing);
        match Found::declared(t) {
            Some((ident, init)) => if init is Ident {
                if global(init, "Object"@, mark) {
                    Found {
                        blocked,
                        object_aliases: self.object_aliases.insert(binding_of(ident)),
                        prototype_aliases: self.prototype_aliases,
                    }
                } else {
                    Found { blocked, ..self }
                }
            } else if self.prototype(init, mark) {
                Found {
                    blocked,
                    object_aliases: self.object_aliases,
                    prototype_aliases: self.prototype_aliases.insert(binding_of(ident)),
                }
            } else {
                Found { blocked, ..self }
            },
            None => Found { blocked, ..self },
        }
    }
}

/// What is found once `t` and its parts are seen, in their order.
pub open spec fn scanned(found: Found, t: Tree, mark: Mark, writing: bool) -> Found
    decreases t, children_of(t).len() + 1,
{
    let noted = found.note(t, mark, writing);
    match t {
        Tree::Assign { left, right, .. } => scanned(
            scanned(noted, *left, mark, true),
            *right,
            mark,
            writing,
        ),
        Tree::Update { arg, .. } => scanned(noted, *arg, mark, true),
        Tree::Unary { op, arg, .. } => scanned(noted, *arg, mark, writing || op == UnaryOp::Delete),
        _ => scanned_parts(noted, t, children_of(t).len(), mark, writing),
    }
}

/// What is found once the first `n` parts of `t` are seen.
pub open spec fn scanned_parts(found: Found, t: Tree, n: nat, mark: Mark, writing: bool) -> Found
    decreases t, n,
{
    if 0 < n <= children_of(t).len() {
        proof {
            lemma_children_smaller(t);
        }
        scanned(
            scanned_parts(found, t, (n - 1) as nat, mark, writing),
            children_of(t)[n - 1],
            mark,
            writing,
        )
    } else {
        found
    }
}

/// What is found before a module is seen.
pub open spec fn nothing_found() -> Found {
    Found { blocked: false, object_aliases: Set::empty(), prototype_aliases: Set::empty() }
}

/// What is found once the items of a module are seen.
pub open spec fn scanned_items(items: Seq<Tree>, mark: Mark) -> Found
    decreases items.len(),
{
    if items.len() == 0 {
        nothing_found()
    } else {
        scanned(scanned_items(items.drop_last(), mark), items.last(), mark, false)
    }
}

/// The module may replace `Object.prototype.hasOwnProperty`.
pub open spec fn unsafe_write(m: ModuleView, mark: Mark) -> bool {
    scanned_items(m.body, mark).blocked
}

/// A walk through a module that looks for writes to `Object.prototype.hasOwnProperty`.
pub struct HasOwnMutationCollector {
    pub mark: Mark,
    pub blocked: bool,
    pub object_aliases: BindingSet,
    pub prototype_aliases: BindingSet,
}

impl View for HasOwnMutationCollector {
    type V = Found;

    open spec fn view(&self) -> Found {
        Found {
            blocked: self.blocked,
            object_aliases: self.object_aliases@,
            prototype_aliases: self.prototype_aliases@,
        }
    }
}

impl HasOwnMutationCollector {
    fn is_object(&self, node: &Node) -> (yes: bool)
        ensures
            yes <==> self@.object(node@, self.mark),
    {
        match node {
            Node::Ident { ident } => {
                is_unresolved_ident(ident, "Object", self.mark) || self.object_aliases.contains(
                    ident,
                )
            },
            _ => false,
        }
    }

    fn is_prototype(&self, node: &Node) -> (yes: bool)
        ensures
            yes <==> self@.prototype(node@, self.mark),
    {
        match node {
            Node::Ident { ident } => self.prototype_aliases.contains(ident),
            _ => match static_member(node, "prototype") {
                Some(object) => self.is_object(object),
                None => false,
            },
        }
    }

    fn is_target(&self, node: &Node) -> (yes: bool)
        ensures
            yes <==> self@.target(node@, self.mark),
    {
        match node {
            Node::Member { obj, prop, .. } => {
                if self.is_object(obj) {
                    is_property_named(prop, "prototype")
                } else {
                    self.is_prototype(obj) && (is_property_named(prop, "hasOwnProperty")
                        || is_property_named(prop, "hasOwn"))
                }
            },
            _ => false,
        }
    }

    fn is_unsafe_here(&self, node: &Node, writing: bool) -> (yes: bool)
        ensures
            yes <==> self@.unsafe_here(node@, self.mark, writing),
    {
        let always = match node {
            Node::With { .. } => true,
            Node::Call { callee, .. } => is_global(callee, "eval", self.mark),
            _ => false,
        };
        if always {
            return true;
        }
        if !writing {
            return false;
        }
        let names_object = match node.own_ident() {
            Some(ident) => is_unresolved_ident(ident, "Object", self.mark),
            None => false,
        };
        names_object || self.is_target(node)
    }

    fn declared(node: &Node) -> (out: Option<(&Ident, &Node)>)
        ensures
            match out {
                Some((ident, init)) => Found::declared(node@) == Some((ident@, init@)),
                None => Found::declared(node@) is None,
            },
    {
        match node {
            Node::Declarator { name, init, .. } => {
                match init {
                    Some(value) => {
                        assert(opt_tree(*init) == Some(Box::new((**value)@)));
                        match pattern_ident(name) {
                            Some(ident) => Some((ident, &**value)),
                            None => None,
                        }
                    },
                    None => {
                        assert(opt_tree(*init) is None);
                        None
                    },
                }
            },
            _ => None,
        }
    }

    fn note(&mut self, node: &Node, writing: bool)
        ensures
            final(self).mark == old(self).mark,
            final(self)@ == old(self)@.note(node@, old(self).mark, writing),
    {
        if self.is_unsafe_here(node, writing) {
            self.blocked = true;
        }
        match Self::declared(node) {
            Some((ident, init)) => {
                if ident_expr(init).is_some() {
                    if is_global(init, "Object", self.mark) {
                        self.object_aliases.insert(ident);
                    }
                } else if self.is_prototype(init) {
                    self.prototype_aliases.insert(ident);
                }
            },
            None => {},
        }
    }
}

impl HasOwnMutationCollector {
    /// Walks through `node`; with `writing`, it stands in what is written to.
    pub fn visit(&mut self, node: &Node, writing: bool)
        ensures
            final(self).mark == old(self).mark,
            final(self)@ == scanned(old(self)@, node@, old(self).mark, writing),
        decreases node@, children_of(node@).len() + 1,
    {
        self.note(node, writing);
        match node {
            Node::Assign { left, right, .. } => {
                self.visit(left, true);
                self.visit(right, writing);
            },
            Node::Update { arg, .. } => {
                self.visit(arg, true);
            },
            Node::Unary { op, arg, .. } => {
                self.visit(arg, writing || *op == UnaryOp::Delete);
            },
            _ => {
                self.visit_parts(node, writing);
            },
        }
    }

    fn visit_parts(&mut self, node: &Node, writing: bool)
        ensures
            final(self).mark == old(self).mark,
            final(self)@ == scanned_parts(
                old(self)@,
                node@,
                children_of(node@).len(),
                old(self).mark,
                writing,
            ),
        decreases node@, children_of(node@).len(),
    {
        let ghost t = node@;
        let ghost before = self@;
        let ghost mark = self.mark;
        let parts = node.children();
        let mut i: usize = 0;
        while i < parts.len()
            invariant
                i <= parts.len(),
                t == node@,
                self.mark == mark,
                seen(parts@) == children_of(t),
                self@ == scanned_parts(before, t, i as nat, mark, writing),
            decreases parts.len() - i,
        {
            proof {
                lemma_children_smaller(t);
                assert(seen(parts@)[i as int] == parts@[i as int]@);
            }
            self.visit(parts[i], writing);
            i += 1;
        }
    }

    /// Whether the module may replace `Object.prototype.hasOwnProperty`.
    pub fn has_unsafe_write(module: &Module, mark: Mark) -> (yes: bool)
        ensures
            yes <==> unsafe_write(module@, mark),
    {
        let ghost all = module@.body;
        let mut collector = HasOwnMutationCollector {
            mark,
            blocked: false,
            object_aliases: BindingSet::new(),
            prototype_aliases: BindingSet::new(),
        };
        let mut i: usize = 0;
        while i < module.body.len()
            invariant
                i <= module.body.len(),
                all == module@.body,
                collector.mark == mark,
                collector@ == scanned_items(all.take(i as int), mark),
            decreases module.body.len() - i,
        {
            assert(all[i as int] == module.body@[i as int]@);
            collector.visit(&module.body[i], false);
            i += 1;
            assert(all.take(i as int).drop_last() =~= all.take(i - 1));
        }
        assert(all.take(i as int) =~= all);
        collector.blocked
    }
}

impl Rewriting for UnHasOwnCall {
    open spec fn entered(&self, state: bool, t: Tree) -> bool {
        state
    }

    open spec fn entered_with(&self, state: bool) -> bool {
        state
    }

    open spec fn left(&self, state: bool, t: Tree) -> Tree {
        if self.level == RewriteLevel::Aggressive && !self.blocked {
            match has_own_call(t, self.unresolved_mark) {
                Some(object) => recovered(t, object),
                None => t,
            }
        } else {
            t
        }
    }
}

impl Rule for UnHasOwnCall {
    type Facts = UnHasOwnCall;

    open spec fn facts(&self) -> UnHasOwnCall {
        *self
    }

    fn enter(&self, state: bool, node: &Node) -> (inner: bool) {
        state
    }

    fn enter_with(&self, state: bool) -> (inner: bool) {
        state
    }

    fn leave(&self, state: bool, node: Node) -> (out: Node) {
        if self.level != RewriteLevel::Aggressive || self.blocked {
            return node;
        }
        match match_has_own_call(&node, self.unresolved_mark) {
            Some(object) => recover(node, object),
            None => node,
        }
    }
}

impl UnHasOwnCall {
    /// The rule that takes identifiers with `unresolved_mark` for globals.
    pub fn new(level: RewriteLevel, unresolved_mark: Mark) -> (rule: UnHasOwnCall)
        ensures
            rule == (UnHasOwnCall { level, unresolved_mark, blocked: false }),
    {
        UnHasOwnCall { level, unresolved_mark, blocked: false }
    }

    /// Rewrites the module.
    pub fn visit_mut_module(&mut self, module: &mut Module)
        ensures
            *final(self) == (UnHasOwnCall {
                blocked: unsafe_write(old(module)@, old(self).unresolved_mark),
                ..*old(self)
            }),
            final(module)@ == recovered_module(
                old(module)@,
                old(self).level,
                old(self).unresolved_mark,
            ),
    {
        self.blocked = HasOwnMutationCollector::has_unsafe_write(module, self.unresolved_mark);
        let mut body: Vec<Node> = Vec::new();
        std::mem::swap(&mut module.body, &mut body);
        module.body = rewrite_list(self, false, body);
    }
}

/// What the rule makes of the module `m`.
pub open spec fn recovered_module(m: ModuleView, level: RewriteLevel, mark: Mark) -> ModuleView {
    let rule = UnHasOwnCall { level, unresolved_mark: mark, blocked: unsafe_write(m, mark) };
    ModuleView { span: m.span, body: rewritten_list(rule, false, m.body) }
}

} // verus!
