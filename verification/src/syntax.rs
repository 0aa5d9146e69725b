//! The syntax that the rules read and rewrite.
//!
//! A [`Node`] is a piece of JavaScript or TypeScript syntax. It tells apart what the
//! rules look at; all other syntax is [`Node::Other`], with its parts in the order in
//! which they stand. A [`Tree`] is the mathematical value of a node, and contracts
//! speak of it.
use vstd::prelude::*;

verus! {

/// A range of source positions.
#[derive(Clone, Copy, PartialEq, Eq, Debug, Structural)]
pub struct Span {
    pub lo: u32,
    pub hi: u32,
}

impl Span {
    /// The position of syntax that no source text stands for.
    #[verifier::allow_in_spec]
    pub fn dummy() -> Span
        returns
            (Span { lo: 0, hi: 0 }),
    {
        Span { lo: 0, hi: 0 }
    }
}

/// A mark that name resolution puts on identifiers.
#[derive(Clone, Copy, PartialEq, Eq, Debug, Structural)]
pub struct Mark {
    /// The number of the mark.
    pub id: u32,
    /// The number of the context that holds this mark and no other.
    pub ctxt: u32,
}

/// The context of an identifier: two identifiers are the same binding if their names
/// and their contexts are the same.
#[derive(Clone, Copy, PartialEq, Eq, Debug, Structural)]
pub struct SyntaxContext {
    /// The number of the context.
    pub id: u32,
    /// The number of the mark that was put on last.
    pub outer: u32,
}

impl SyntaxContext {
    /// The context without a mark.
    #[verifier::allow_in_spec]
    pub fn empty() -> SyntaxContext
        returns
            (SyntaxContext { id: 0, outer: 0 }),
    {
        SyntaxContext { id: 0, outer: 0 }
    }

    /// The context that holds `mark` and no other mark.
    #[verifier::allow_in_spec]
    pub fn of_mark(mark: Mark) -> SyntaxContext
        returns
            (SyntaxContext { id: mark.ctxt, outer: mark.id }),
    {
        SyntaxContext { id: mark.ctxt, outer: mark.id }
    }
}

/// What a node carries beside its parts.
#[derive(Clone, Copy, PartialEq, Eq, Debug, Structural)]
pub struct Meta {
    pub span: Span,
    /// A number for the details that the rules do not look at: two nodes of one variant
    /// and one shape differ in their positions and in their parts alone.
    pub shape: u32,
    /// A number by which the owner of the tree finds those details again.
    pub slot: u32,
}

/// An identifier.
#[derive(PartialEq, Eq, Debug)]
pub struct Ident {
    pub sym: String,
    pub ctxt: SyntaxContext,
    pub span: Span,
    pub optional: bool,
}

/// The value of an [`Ident`].
pub struct IdentView {
    pub sym: Seq<char>,
    pub ctxt: SyntaxContext,
    pub span: Span,
    pub optional: bool,
}

impl View for Ident {
    type V = IdentView;

    open spec fn view(&self) -> IdentView {
        IdentView { sym: self.sym@, ctxt: self.ctxt, span: self.span, optional: self.optional }
    }
}

impl Clone for Ident {
    fn clone(&self) -> (copy: Ident)
        ensures
            copy@ == self@,
    {
        Ident {
            sym: self.sym.clone(),
            ctxt: self.ctxt,
            span: self.span,
            optional: self.optional,
        }
    }
}

/// The operator of an assignment.
#[derive(Clone, Copy, PartialEq, Eq, Debug, Structural)]
pub enum AssignOp {
    Assign,
    AddAssign,
    SubAssign,
    MulAssign,
    DivAssign,
    ModAssign,
    LShiftAssign,
    RShiftAssign,
    ZeroFillRShiftAssign,
    BitOrAssign,
    BitXorAssign,
    BitAndAssign,
    ExpAssign,
    AndAssign,
    OrAssign,
    NullishAssign,
}

/// A unary operator.
#[derive(Clone, Copy, PartialEq, Eq, Debug, Structural)]
pub enum UnaryOp {
    Minus,
    Plus,
    Bang,
    Tilde,
    TypeOf,
    Void,
    Delete,
}

/// A binary operator.
#[derive(Clone, Copy, PartialEq, Eq, Debug, Structural)]
pub enum BinaryOp {
    EqEq,
    NotEq,
    EqEqEq,
    NotEqEq,
    Lt,
    LtEq,
    Gt,
    GtEq,
    LShift,
    RShift,
    ZeroFillRShift,
    Plus,
    Minus,
    Mul,
    Div,
    Mod,
    BitOr,
    BitXor,
    BitAnd,
    LogicalOr,
    LogicalAnd,
    In,
    InstanceOf,
    Exp,
    NullishCoalescing,
}

/// The TypeScript wrappers that leave the value of an expression as it is.
#[derive(Clone, Copy, PartialEq, Eq, Debug, Structural)]
pub enum TypedKind {
    As,
    Satisfies,
    NonNull,
    TypeAssertion,
    ConstAssertion,
    Instantiation,
}

/// The keyword of a declaration of variables.
#[derive(Clone, Copy, PartialEq, Eq, Debug, Structural)]
pub enum VarDeclKind {
    Var,
    Let,
    Const,
}

/// The forms in which an import brings in a name.
#[derive(Clone, Copy, PartialEq, Eq, Debug, Structural)]
pub enum SpecifierKind {
    Named,
    Default,
    Namespace,
}

/// A piece of syntax.
#[allow(inconsistent_fields)]
#[derive(PartialEq, Eq, Debug)]
pub enum Node {
    // Expressions.
    /// An identifier that is read, or that names something.
    Ident { ident: Ident },
    /// `this`.
    This { span: Span },
    /// A number literal, by the bits of its IEEE 754 double.
    Num { meta: Meta, bits: u64 },
    /// `null`.
    Null { span: Span },
    /// An array literal; its elements are `Arg` and `Hole`.
    Array { span: Span, elems: Vec<Node> },
    /// A missing element of an array literal or of an array pattern.
    Hole,
    /// An argument, or an element of an array literal; spread if `spread` is there.
    Arg { spread: Option<Span>, expr: Box<Node> },
    /// A call `callee(args)`; not the call of an optional chain.
    Call { span: Span, ctxt: SyntaxContext, callee: Box<Node>, args: Vec<Node>, types: Vec<Node> },
    /// `obj.prop` or `obj[prop]`; `prop` is `PropIdent`, `Computed`, or `Other` for a private name.
    Member { span: Span, obj: Box<Node>, prop: Box<Node> },
    /// A property name written as an identifier: no reference to a binding.
    PropIdent { span: Span, sym: String },
    /// A computed property name, `[expr]`.
    Computed { span: Span, expr: Box<Node> },
    /// `super.prop` or `super[prop]`.
    SuperProp { meta: Meta, prop: Box<Node> },
    /// An optional chain; `base` is a `Member`, or `Other` for an optional call.
    OptChain { span: Span, optional: bool, base: Box<Node> },
    /// An assignment; `left` is a pattern, or an expression that can be assigned to.
    Assign { span: Span, op: AssignOp, left: Box<Node>, right: Box<Node> },
    /// `++arg`, `arg--` and the like.
    Update { meta: Meta, arg: Box<Node> },
    /// A unary operation.
    Unary { span: Span, op: UnaryOp, arg: Box<Node> },
    /// A binary operation.
    Bin { span: Span, op: BinaryOp, left: Box<Node>, right: Box<Node> },
    /// `(expr)`.
    Paren { span: Span, expr: Box<Node> },
    /// An expression under a TypeScript wrapper that is erased at run time.
    Typed { kind: TypedKind, span: Span, expr: Box<Node>, types: Vec<Node> },
    /// A function expression.
    FnExpr { name: Option<Ident>, function: Box<Node> },
    /// A class expression.
    ClassExpr { name: Option<Ident>, class: Box<Node> },
    /// An arrow function; `body` is a `FunctionBody` or an expression.
    Arrow { meta: Meta, params: Vec<Node>, body: Box<Node>, types: Vec<Node> },

    // Functions and classes.
    /// What follows `function`, or a method's name; `params` are `Param`, `body` is a
    /// `FunctionBody`.
    Function {
        meta: Meta,
        this_param: Vec<Node>,
        params: Vec<Node>,
        decorators: Vec<Node>,
        body: Option<Box<Node>>,
        types: Vec<Node>,
    },
    /// A parameter of a function.
    Param { meta: Meta, decorators: Vec<Node>, pat: Box<Node> },
    /// The body of a function, of a constructor, or of an arrow function that has braces.
    FunctionBody { span: Span, stmts: Vec<Node> },
    /// The constructor of a class.
    Constructor { meta: Meta, key: Box<Node>, params: Vec<Node>, body: Option<Box<Node>> },
    /// A field of a class: public, private, or an auto-accessor.
    Field {
        meta: Meta,
        key: Box<Node>,
        value: Option<Box<Node>>,
        types: Vec<Node>,
        decorators: Vec<Node>,
    },
    /// `static { .. }`; `body` is a `Block`.
    StaticBlock { span: Span, body: Box<Node> },
    /// A getter or a setter of an object literal; `function` is a `Function`.
    Accessor { meta: Meta, key: Box<Node>, function: Box<Node> },

    // Patterns.
    /// An identifier in the place of a pattern, or as the target of an assignment.
    PatIdent { ident: Ident, types: Vec<Node> },
    /// An array pattern; its elements are patterns and `Hole`.
    PatArray { meta: Meta, elems: Vec<Node>, types: Vec<Node> },
    /// An object pattern; its properties are `PatProp`, `PatShorthand` and `PatRest`.
    PatObject { meta: Meta, props: Vec<Node>, types: Vec<Node> },
    /// A pattern with a default value.
    PatAssign { span: Span, left: Box<Node>, right: Box<Node> },
    /// `...arg` in a pattern.
    PatRest { meta: Meta, arg: Box<Node>, types: Vec<Node> },
    /// `key: value` in an object pattern.
    PatProp { key: Box<Node>, value: Box<Node> },
    /// `ident` or `ident = value` in an object pattern.
    PatShorthand { span: Span, ident: Ident, types: Vec<Node>, value: Option<Box<Node>> },

    // Statements.
    /// An expression as a statement.
    ExprStmt { span: Span, expr: Box<Node> },
    /// `var`, `let` or `const`; `decls` are `Declarator`.
    VarDecl { meta: Meta, kind: VarDeclKind, decls: Vec<Node> },
    /// `name = init` in a declaration of variables.
    Declarator { meta: Meta, name: Box<Node>, init: Option<Box<Node>> },
    /// A declaration of a function.
    FnDecl { meta: Meta, ident: Ident, function: Box<Node> },
    /// A declaration of a class.
    ClassDecl { meta: Meta, ident: Ident, class: Box<Node> },
    /// A block statement.
    Block { meta: Meta, stmts: Vec<Node> },
    /// A case of a `switch`, or its default.
    SwitchCase { span: Span, test: Option<Box<Node>>, cons: Vec<Node> },
    /// `with (obj) body`.
    With { span: Span, obj: Box<Node>, body: Box<Node> },
    /// `for (left in right) body` or `for (left of right) body`.
    ForEach { meta: Meta, left: Box<Node>, right: Box<Node>, body: Box<Node> },
    /// The `catch` of a `try`; `body` is a `Block`.
    Catch { span: Span, param: Option<Box<Node>>, body: Box<Node> },

    // Module items, and the rest.
    /// An import; `specifiers` are `Specifier`.
    Import { meta: Meta, specifiers: Vec<Node>, rest: Vec<Node> },
    /// A name that an import brings in.
    Specifier { meta: Meta, kind: SpecifierKind, local: Ident, rest: Vec<Node> },
    /// Any other piece of syntax.
    Other { meta: Meta, children: Vec<Node> },
}

/// The value of a [`Node`].
#[allow(inconsistent_fields)]
pub enum Tree {
    // Expressions.
    Ident { ident: IdentView },
    This { span: Span },
    Num { meta: Meta, bits: u64 },
    Null { span: Span },
    Array { span: Span, elems: Seq<Tree> },
    Hole,
    Arg { spread: Option<Span>, expr: Box<Tree> },
    Call { span: Span, ctxt: SyntaxContext, callee: Box<Tree>, args: Seq<Tree>, types: Seq<Tree> },
    Member { span: Span, obj: Box<Tree>, prop: Box<Tree> },
    PropIdent { span: Span, sym: Seq<char> },
    Computed { span: Span, expr: Box<Tree> },
    SuperProp { meta: Meta, prop: Box<Tree> },
    OptChain { span: Span, optional: bool, base: Box<Tree> },
    Assign { span: Span, op: AssignOp, left: Box<Tree>, right: Box<Tree> },
    Update { meta: Meta, arg: Box<Tree> },
    Unary { span: Span, op: UnaryOp, arg: Box<Tree> },
    Bin { span: Span, op: BinaryOp, left: Box<Tree>, right: Box<Tree> },
    Paren { span: Span, expr: Box<Tree> },
    Typed { kind: TypedKind, span: Span, expr: Box<Tree>, types: Seq<Tree> },
    FnExpr { name: Option<IdentView>, function: Box<Tree> },
    ClassExpr { name: Option<IdentView>, class: Box<Tree> },
    Arrow { meta: Meta, params: Seq<Tree>, body: Box<Tree>, types: Seq<Tree> },

    // Functions and classes.
    Function {
        meta: Meta,
        this_param: Seq<Tree>,
        params: Seq<Tree>,
        decorators: Seq<Tree>,
        body: Option<Box<Tree>>,
        types: Seq<Tree>,
    },
    Param { meta: Meta, decorators: Seq<Tree>, pat: Box<Tree> },
    FunctionBody { span: Span, stmts: Seq<Tree> },
    Constructor { meta: Meta, key: Box<Tree>, params: Seq<Tree>, body: Option<Box<Tree>> },
    Field {
        meta: Meta,
        key: Box<Tree>,
        value: Option<Box<Tree>>,
        types: Seq<Tree>,
        decorators: Seq<Tree>,
    },
    StaticBlock { span: Span, body: Box<Tree> },
    Accessor { meta: Meta, key: Box<Tree>, function: Box<Tree> },

    // Patterns.
    PatIdent { ident: IdentView, types: Seq<Tree> },
    PatArray { meta: Meta, elems: Seq<Tree>, types: Seq<Tree> },
    PatObject { meta: Meta, props: Seq<Tree>, types: Seq<Tree> },
    PatAssign { span: Span, left: Box<Tree>, right: Box<Tree> },
    PatRest { meta: Meta, arg: Box<Tree>, types: Seq<Tree> },
    PatProp { key: Box<Tree>, value: Box<Tree> },
    PatShorthand { span: Span, ident: IdentView, types: Seq<Tree>, value: Option<Box<Tree>> },

    // Statements.
    ExprStmt { span: Span, expr: Box<Tree> },
    VarDecl { meta: Meta, kind: VarDeclKind, decls: Seq<Tree> },
    Declarator { meta: Meta, name: Box<Tree>, init: Option<Box<Tree>> },
    FnDecl { meta: Meta, ident: IdentView, function: Box<Tree> },
    ClassDecl { meta: Meta, ident: IdentView, class: Box<Tree> },
    Block { meta: Meta, stmts: Seq<Tree> },
    SwitchCase { span: Span, test: Option<Box<Tree>>, cons: Seq<Tree> },
    With { span: Span, obj: Box<Tree>, body: Box<Tree> },
    ForEach { meta: Meta, left: Box<Tree>, right: Box<Tree>, body: Box<Tree> },
    Catch { span: Span, param: Option<Box<Tree>>, body: Box<Tree> },

    // Module items, and the rest.
    Import { meta: Meta, specifiers: Seq<Tree>, rest: Seq<Tree> },
    Specifier { meta: Meta, kind: SpecifierKind, local: IdentView, rest: Seq<Tree> },
    Other { meta: Meta, children: Seq<Tree> },
}

/// A source file that is a module.
#[derive(PartialEq, Eq, Debug)]
pub struct Module {
    pub span: Span,
    pub body: Vec<Node>,
}

/// The value of a [`Module`].
#[verifier::ext_equal]
pub struct ModuleView {
    pub span: Span,
    pub body: Seq<Tree>,
}

impl View for Module {
    type V = ModuleView;

    open spec fn view(&self) -> ModuleView {
        ModuleView { span: self.span, body: trees(self.body@) }
    }
}

impl View for Node {
    type V = Tree;

    open spec fn view(&self) -> Tree {
        tree(*self)
    }
}

/// The value of `n`.
pub open spec fn tree(n: Node) -> Tree
    decreases n,
{
    match n {
        Node::Ident { ident } => Tree::Ident { ident: ident@ },
        Node::This { span } => Tree::This { span },
        Node::Num { meta, bits } => Tree::Num { meta, bits },
        Node::Null { span } => Tree::Null { span },
        Node::Array { span, elems } => Tree::Array { span, elems: trees(elems@) },
        Node::Hole => Tree::Hole,
        Node::Arg { spread, expr } => Tree::Arg { spread, expr: Box::new(tree(*expr)) },
        Node::Call { span, ctxt, callee, args, types } => Tree::Call {
            span,
            ctxt,
            callee: Box::new(tree(*callee)),
            args: trees(args@),
            types: trees(types@),
        },
        Node::Member { span, obj, prop } => Tree::Member {
            span,
            obj: Box::new(tree(*obj)),
            prop: Box::new(tree(*prop)),
        },
        Node::PropIdent { span, sym } => Tree::PropIdent { span, sym: sym@ },
        Node::Computed { span, expr } => Tree::Computed { span, expr: Box::new(tree(*expr)) },
        Node::SuperProp { meta, prop } => Tree::SuperProp { meta, prop: Box::new(tree(*prop)) },
        Node::OptChain { span, optional, base } => Tree::OptChain {
            span,
            optional,
            base: Box::new(tree(*base)),
        },
        Node::Assign { span, op, left, right } => Tree::Assign {
            span,
            op,
            left: Box::new(tree(*left)),
            right: Box::new(tree(*right)),
        },
        Node::Update { meta, arg } => Tree::Update { meta, arg: Box::new(tree(*arg)) },
        Node::Unary { span, op, arg } => Tree::Unary { span, op, arg: Box::new(tree(*arg)) },
        Node::Bin { span, op, left, right } => Tree::Bin {
            span,
            op,
            left: Box::new(tree(*left)),
            right: Box::new(tree(*right)),
        },
        Node::Paren { span, expr } => Tree::Paren { span, expr: Box::new(tree(*expr)) },
        Node::Typed { kind, span, expr, types } => Tree::Typed {
            kind,
            span,
            expr: Box::new(tree(*expr)),
            types: trees(types@),
        },
        Node::FnExpr { name, function } => Tree::FnExpr {
            name: opt_ident(name),
            function: Box::new(tree(*function)),
        },
        Node::ClassExpr { name, class } => Tree::ClassExpr {
            name: opt_ident(name),
            class: Box::new(tree(*class)),
        },
        Node::Arrow { meta, params, body, types } => Tree::Arrow {
            meta,
            params: trees(params@),
            body: Box::new(tree(*body)),
            types: trees(types@),
        },
        Node::Function { meta, this_param, params, decorators, body, types } => Tree::Function {
            meta,
            this_param: trees(this_param@),
            params: trees(params@),
            decorators: trees(decorators@),
            body: opt_tree(body),
            types: trees(types@),
        },
        Node::Param { meta, decorators, pat } => Tree::Param {
            meta,
            decorators: trees(decorators@),
            pat: Box::new(tree(*pat)),
        },
        Node::FunctionBody { span, stmts } => Tree::FunctionBody { span, stmts: trees(stmts@) },
        Node::Constructor { meta, key, params, body } => Tree::Constructor {
            meta,
            key: Box::new(tree(*key)),
            params: trees(params@),
            body: opt_tree(body),
        },
        Node::Field { meta, key, value, types, decorators } => Tree::Field {
            meta,
            key: Box::new(tree(*key)),
            value: opt_tree(value),
            types: trees(types@),
            decorators: trees(decorators@),
        },
        Node::StaticBlock { span, body } => Tree::StaticBlock { span, body: Box::new(tree(*body)) },
        Node::Accessor { meta, key, function } => Tree::Accessor {
            meta,
            key: Box::new(tree(*key)),
            function: Box::new(tree(*function)),
        },
        Node::PatIdent { ident, types } => Tree::PatIdent { ident: ident@, types: trees(types@) },
        Node::PatArray { meta, elems, types } => Tree::PatArray {
            meta,
            elems: trees(elems@),
            types: trees(types@),
        },
        Node::PatObject { meta, props, types } => Tree::PatObject {
            meta,
            props: trees(props@),
            types: trees(types@),
        },
        Node::PatAssign { span, left, right } => Tree::PatAssign {
            span,
            left: Box::new(tree(*left)),
            right: Box::new(tree(*right)),
        },
        Node::PatRest { meta, arg, types } => Tree::PatRest {
            meta,
            arg: Box::new(tree(*arg)),
            types: trees(types@),
        },
        Node::PatProp { key, value } => Tree::PatProp {
            key: Box::new(tree(*key)),
            value: Box::new(tree(*value)),
        },
        Node::PatShorthand { span, ident, types, value } => Tree::PatShorthand {
            span,
            ident: ident@,
            types: trees(types@),
            value: opt_tree(value),
        },
        Node::ExprStmt { span, expr } => Tree::ExprStmt { span, expr: Box::new(tree(*expr)) },
        Node::VarDecl { meta, kind, decls } => Tree::VarDecl { meta, kind, decls: trees(decls@) },
        Node::Declarator { meta, name, init } => Tree::Declarator {
            meta,
            name: Box::new(tree(*name)),
            init: opt_tree(init),
        },
        Node::FnDecl { meta, ident, function } => Tree::FnDecl {
            meta,
            ident: ident@,
            function: Box::new(tree(*function)),
        },
        Node::ClassDecl { meta, ident, class } => Tree::ClassDecl {
            meta,
            ident: ident@,
            class: Box::new(tree(*class)),
        },
        Node::Block { meta, stmts } => Tree::Block { meta, stmts: trees(stmts@) },
        Node::SwitchCase { span, test, cons } => Tree::SwitchCase {
            span,
            test: opt_tree(test),
            cons: trees(cons@),
        },
        Node::With { span, obj, body } => Tree::With {
            span,
            obj: Box::new(tree(*obj)),
            body: Box::new(tree(*body)),
        },
        Node::ForEach { meta, left, right, body } => Tree::ForEach {
            meta,
            left: Box::new(tree(*left)),
            right: Box::new(tree(*right)),
            body: Box::new(tree(*body)),
        },
        Node::Catch { span, param, body } => Tree::Catch {
            span,
            param: opt_tree(param),
            body: Box::new(tree(*body)),
        },
        Node::Import { meta, specifiers, rest } => Tree::Import {
            meta,
            specifiers: trees(specifiers@),
            rest: trees(rest@),
        },
        Node::Specifier { meta, kind, local, rest } => Tree::Specifier {
            meta,
            kind,
            local: local@,
            rest: trees(rest@),
        },
        Node::Other { meta, children } => Tree::Other { meta, children: trees(children@) },
    }
}

/// The values of the nodes of `s`.
pub open spec fn trees(s: Seq<Node>) -> Seq<Tree>
    decreases s,
{
    if s.len() == 0 {
        Seq::empty()
    } else {
        trees(s.drop_last()).push(tree(s.last()))
    }
}

/// The value of a node that may be missing.
pub open spec fn opt_tree(n: Option<Box<Node>>) -> Option<Box<Tree>>
    decreases n,
{
    match n {
        Some(n) => Some(Box::new(tree(*n))),
        None => None,
    }
}

/// The value of an identifier that may be missing.
pub open spec fn opt_ident(ident: Option<Ident>) -> Option<IdentView> {
    match ident {
        Some(ident) => Some(ident@),
        None => None,
    }
}

/// The values of a list of nodes are those of its nodes, one by one.
pub broadcast proof fn lemma_trees(s: Seq<Node>)
    ensures
        (#[trigger] trees(s)).len() == s.len(),
        forall|i: int| 0 <= i < s.len() ==> #[trigger] trees(s)[i] == s[i]@,
    decreases s.len(),
{
    if s.len() > 0 {
        lemma_trees(s.drop_last());
    }
}

/// The values of a list that grew by one node.
pub broadcast proof fn lemma_trees_push(s: Seq<Node>, n: Node)
    ensures
        #[trigger] trees(s.push(n)) == trees(s).push(n@),
{
    assert(s.push(n).drop_last() =~= s);
}

impl Clone for Node {
    fn clone(&self) -> (copy: Node)
        ensures
            copy@ == self@,
        decreases self,
    {
        match self {
            Node::Ident { ident } => Node::Ident { ident: ident.clone() },
            Node::This { span } => Node::This { span: *span },
            Node::Num { meta, bits } => Node::Num { meta: *meta, bits: *bits },
            Node::Null { span } => Node::Null { span: *span },
            Node::Array { span, elems } => Node::Array { span: *span, elems: clone_list(elems) },
            Node::Hole => Node::Hole,
            Node::Arg { spread, expr } => Node::Arg {
                spread: *spread,
                expr: Box::new((**expr).clone()),
            },
            Node::Call { span, ctxt, callee, args, types } => Node::Call {
                span: *span,
                ctxt: *ctxt,
                callee: Box::new((**callee).clone()),
                args: clone_list(args),
                types: clone_list(types),
            },
            Node::Member { span, obj, prop } => Node::Member {
                span: *span,
                obj: Box::new((**obj).clone()),
                prop: Box::new((**prop).clone()),
            },
            Node::PropIdent { span, sym } => Node::PropIdent { span: *span, sym: sym.clone() },
            Node::Computed { span, expr } => Node::Computed {
                span: *span,
                expr: Box::new((**expr).clone()),
            },
            Node::SuperProp { meta, prop } => Node::SuperProp {
                meta: *meta,
                prop: Box::new((**prop).clone()),
            },
            Node::OptChain { span, optional, base } => Node::OptChain {
                span: *span,
                optional: *optional,
                base: Box::new((**base).clone()),
            },
            Node::Assign { span, op, left, right } => Node::Assign {
                span: *span,
                op: *op,
                left: Box::new((**left).clone()),
                right: Box::new((**right).clone()),
            },
            Node::Update { meta, arg } => Node::Update {
                meta: *meta,
                arg: Box::new((**arg).clone()),
            },
            Node::Unary { span, op, arg } => Node::Unary {
                span: *span,
                op: *op,
                arg: Box::new((**arg).clone()),
            },
            Node::Bin { span, op, left, right } => Node::Bin {
                span: *span,
                op: *op,
                left: Box::new((**left).clone()),
                right: Box::new((**right).clone()),
            },
            Node::Paren { span, expr } => Node::Paren {
                span: *span,
                expr: Box::new((**expr).clone()),
            },
            Node::Typed { kind, span, expr, types } => Node::Typed {
                kind: *kind,
                span: *span,
                expr: Box::new((**expr).clone()),
                types: clone_list(types),
            },
            Node::FnExpr { name, function } => Node::FnExpr {
                name: clone_name(name),
                function: Box::new((**function).clone()),
            },
            Node::ClassExpr { name, class } => Node::ClassExpr {
                name: clone_name(name),
                class: Box::new((**class).clone()),
            },
            Node::Arrow { meta, params, body, types } => Node::Arrow {
                meta: *meta,
                params: clone_list(params),
                body: Box::new((**body).clone()),
                types: clone_list(types),
            },
            Node::Function { meta, this_param, params, decorators, body, types } => Node::Function {
                meta: *meta,
                this_param: clone_list(this_param),
                params: clone_list(params),
                decorators: clone_list(decorators),
                body: clone_opt(body),
                types: clone_list(types),
            },
            Node::Param { meta, decorators, pat } => Node::Param {
                meta: *meta,
                decorators: clone_list(decorators),
                pat: Box::new((**pat).clone()),
            },
            Node::FunctionBody { span, stmts } => Node::FunctionBody {
                span: *span,
                stmts: clone_list(stmts),
            },
            Node::Constructor { meta, key, params, body } => Node::Constructor {
                meta: *meta,
                key: Box::new((**key).clone()),
                params: clone_list(params),
                body: clone_opt(body),
            },
            Node::Field { meta, key, value, types, decorators } => Node::Field {
                meta: *meta,
                key: Box::new((**key).clone()),
                value: clone_opt(value),
                types: clone_list(types),
                decorators: clone_list(decorators),
            },
            Node::StaticBlock { span, body } => Node::StaticBlock {
                span: *span,
                body: Box::new((**body).clone()),
            },
            Node::Accessor { meta, key, function } => Node::Accessor {
                meta: *meta,
                key: Box::new((**key).clone()),
                function: Box::new((**function).clone()),
            },
            Node::PatIdent { ident, types } => Node::PatIdent {
                ident: ident.clone(),
                types: clone_list(types),
            },
            Node::PatArray { meta, elems, types } => Node::PatArray {
                meta: *meta,
                elems: clone_list(elems),
                types: clone_list(types),
            },
            Node::PatObject { meta, props, types } => Node::PatObject {
                meta: *meta,
                props: clone_list(props),
                types: clone_list(types),
            },
            Node::PatAssign { span, left, right } => Node::PatAssign {
                span: *span,
                left: Box::new((**left).clone()),
                right: Box::new((**right).clone()),
            },
            Node::PatRest { meta, arg, types } => Node::PatRest {
                meta: *meta,
                arg: Box::new((**arg).clone()),
                types: clone_list(types),
            },
            Node::PatProp { key, value } => Node::PatProp {
                key: Box::new((**key).clone()),
                value: Box::new((**value).clone()),
            },
            Node::PatShorthand { span, ident, types, value } => Node::PatShorthand {
                span: *span,
                ident: ident.clone(),
                types: clone_list(types),
                value: clone_opt(value),
            },
            Node::ExprStmt { span, expr } => Node::ExprStmt {
                span: *span,
                expr: Box::new((**expr).clone()),
            },
            Node::VarDecl { meta, kind, decls } => Node::VarDecl {
                meta: *meta,
                kind: *kind,
                decls: clone_list(decls),
            },
            Node::Declarator { meta, name, init } => Node::Declarator {
                meta: *meta,
                name: Box::new((**name).clone()),
                init: clone_opt(init),
            },
            Node::FnDecl { meta, ident, function } => Node::FnDecl {
                meta: *meta,
                ident: ident.clone(),
                function: Box::new((**function).clone()),
            },
            Node::ClassDecl { meta, ident, class } => Node::ClassDecl {
                meta: *meta,
                ident: ident.clone(),
                class: Box::new((**class).clone()),
            },
            Node::Block { meta, stmts } => Node::Block { meta: *meta, stmts: clone_list(stmts) },
            Node::SwitchCase { span, test, cons } => Node::SwitchCase {
                span: *span,
                test: clone_opt(test),
                cons: clone_list(cons),
            },
            Node::With { span, obj, body } => Node::With {
                span: *span,
                obj: Box::new((**obj).clone()),
                body: Box::new((**body).clone()),
            },
            Node::ForEach { meta, left, right, body } => Node::ForEach {
                meta: *meta,
                left: Box::new((**left).clone()),
                right: Box::new((**right).clone()),
                body: Box::new((**body).clone()),
            },
            Node::Catch { span, param, body } => Node::Catch {
                span: *span,
                param: clone_opt(param),
                body: Box::new((**body).clone()),
            },
            Node::Import { meta, specifiers, rest } => Node::Import {
                meta: *meta,
                specifiers: clone_list(specifiers),
                rest: clone_list(rest),
            },
            Node::Specifier { meta, kind, local, rest } => Node::Specifier {
                meta: *meta,
                kind: *kind,
                local: local.clone(),
                rest: clone_list(rest),
            },
            Node::Other { meta, children } => Node::Other {
                meta: *meta,
                children: clone_list(children),
            },
        }
    }
}

fn clone_opt(n: &Option<Box<Node>>) -> (copy: Option<Box<Node>>)
    ensures
        opt_tree(copy) == opt_tree(*n),
    decreases n,
{
    match n {
        Some(n) => Some(Box::new((**n).clone())),
        None => None,
    }
}

fn clone_name(ident: &Option<Ident>) -> (copy: Option<Ident>)
    ensures
        opt_ident(copy) == opt_ident(*ident),
{
    match ident {
        Some(ident) => Some(ident.clone()),
        None => None,
    }
}

/// A copy of a list of nodes.
pub fn clone_list(list: &Vec<Node>) -> (copy: Vec<Node>)
    ensures
        trees(copy@) == trees(list@),
    decreases list,
{
    let mut copy: Vec<Node> = Vec::new();
    let mut i: usize = 0;
    while i < list.len()
        invariant
            i <= list.len(),
            trees(copy@) == trees(list@).take(i as int),
        decreases list.len() - i,
    {
        broadcast use {lemma_trees, lemma_trees_push};

        let n = list[i].clone();
        copy.push(n);
        i += 1;
        assert(trees(list@).take(i as int) =~= trees(list@).take(i - 1).push(list@[i - 1]@));
    }
    proof {
        lemma_trees(list@);
    }
    assert(trees(list@).take(i as int) =~= trees(list@));
    copy
}

/// Takes the node at the index `i` out of the list, and leaves a hole in its place.
pub fn take_out(list: &mut Vec<Node>, i: usize) -> (node: Node)
    requires
        i < old(list).len(),
    ensures
        node == old(list)@[i as int],
        final(list)@ == old(list)@.update(i as int, Node::Hole),
{
    let mut node = Node::Hole;
    std::mem::swap(&mut list[i], &mut node);
    node
}

} // verus!
