//! The rules on source text: it is parsed and resolved, read into the library's syntax,
//! rewritten, and compared with other source text that is read in the same way.

use swc_core::common::sync::Lrc;
use swc_core::common::{FileName, Globals, Mark as SwcMark, SourceMap, Span as SwcSpan};
use swc_core::common::{Spanned, SyntaxContext as SwcContext, GLOBALS};
use swc_core::ecma::ast;
use swc_core::ecma::parser::{parse_file_as_module, EsSyntax, Syntax, TsSyntax};
use swc_core::ecma::transforms::base::resolver;
use swc_core::ecma::visit::VisitMutWith;

use wakaru_rules::rewrite_level::RewriteLevel;
use wakaru_rules::syntax::{
    AssignOp, BinaryOp, Ident, Mark, Meta, Module, Node, Span, SpecifierKind, SyntaxContext,
    TypedKind, UnaryOp, VarDeclKind,
};
use wakaru_rules::un_argument_spread::UnArgumentSpread;
use wakaru_rules::un_has_own_call::UnHasOwnCall;
use wakaru_rules::un_infinity::UnInfinity;

/// Reads parsed source text into the library's syntax. What the library does not tell apart
/// is described by a text, and the shape of such a node is the number of its description.
struct Reader {
    shapes: Vec<String>,
}

fn span(span: SwcSpan) -> Span {
    Span { lo: span.lo.0, hi: span.hi.0 }
}

fn context(ctxt: SwcContext) -> SyntaxContext {
    SyntaxContext { id: ctxt.as_u32(), outer: ctxt.outer().as_u32() }
}

fn mark(mark: SwcMark) -> Mark {
    Mark { id: mark.as_u32(), ctxt: SwcContext::empty().apply_mark(mark).as_u32() }
}

fn ident(ident: &ast::Ident) -> Ident {
    Ident {
        sym: ident.sym.to_string(),
        ctxt: context(ident.ctxt),
        span: span(ident.span),
        optional: ident.optional,
    }
}

impl Reader {
    fn meta(&mut self, at: SwcSpan, description: &str) -> Meta {
        let shape = match self.shapes.iter().position(|known| known == description) {
            Some(shape) => shape,
            None => {
                self.shapes.push(description.to_string());
                self.shapes.len() - 1
            }
        };
        Meta { span: span(at), shape: shape as u32, slot: 0 }
    }

    fn other(&mut self, at: SwcSpan, description: &str, children: Vec<Node>) -> Node {
        Node::Other { meta: self.meta(at, description), children }
    }

    fn boxed(&mut self, expr: &ast::Expr) -> Box<Node> {
        Box::new(self.expr(expr))
    }

    fn arg(&mut self, arg: &ast::ExprOrSpread) -> Node {
        Node::Arg { spread: arg.spread.map(span), expr: self.boxed(&arg.expr) }
    }

    fn args(&mut self, args: &[ast::ExprOrSpread]) -> Vec<Node> {
        args.iter().map(|arg| self.arg(arg)).collect()
    }

    fn member(&mut self, member: &ast::MemberExpr) -> Node {
        let prop = match &member.prop {
            ast::MemberProp::Ident(name) => {
                Node::PropIdent { span: span(name.span), sym: name.sym.to_string() }
            }
            ast::MemberProp::Computed(computed) => Node::Computed {
                span: span(computed.span),
                expr: self.boxed(&computed.expr),
            },
            ast::MemberProp::PrivateName(name) => {
                self.other(name.span, &format!("#{}", name.name), vec![])
            }
        };
        Node::Member { span: span(member.span), obj: self.boxed(&member.obj), prop: Box::new(prop) }
    }

    fn typed(&mut self, kind: TypedKind, at: SwcSpan, expr: &ast::Expr) -> Node {
        Node::Typed { kind, span: span(at), expr: self.boxed(expr), types: vec![] }
    }

    fn expr(&mut self, expr: &ast::Expr) -> Node {
        let at = expr.span();
        match expr {
            ast::Expr::This(_) => Node::This { span: span(at) },
            ast::Expr::Ident(name) => Node::Ident { ident: ident(name) },
            ast::Expr::Lit(ast::Lit::Num(number)) => Node::Num {
                meta: self.meta(at, "number"),
                bits: number.value.to_bits(),
            },
            ast::Expr::Lit(ast::Lit::Null(_)) => Node::Null { span: span(at) },
            ast::Expr::Lit(ast::Lit::Str(text)) => {
                self.other(at, &format!("string {:?}", text.value), vec![])
            }
            ast::Expr::Lit(ast::Lit::Bool(value)) => {
                self.other(at, &format!("{}", value.value), vec![])
            }
            ast::Expr::Array(array) => Node::Array {
                span: span(at),
                elems: array
                    .elems
                    .iter()
                    .map(|elem| match elem {
                        Some(elem) => self.arg(elem),
                        None => Node::Hole,
                    })
                    .collect(),
            },
            ast::Expr::Object(object) => {
                let props = object.props.iter().map(|prop| self.prop(prop)).collect();
                self.other(at, "object", props)
            }
            ast::Expr::Fn(function) => Node::FnExpr {
                name: function.ident.as_ref().map(ident),
                function: Box::new(self.function(&function.function)),
            },
            ast::Expr::Class(class) => Node::ClassExpr {
                name: class.ident.as_ref().map(ident),
                class: Box::new(self.class(&class.class)),
            },
            ast::Expr::Unary(unary) => Node::Unary {
                span: span(at),
                op: match unary.op {
                    ast::UnaryOp::Minus => UnaryOp::Minus,
                    ast::UnaryOp::Plus => UnaryOp::Plus,
                    ast::UnaryOp::Bang => UnaryOp::Bang,
                    ast::UnaryOp::Tilde => UnaryOp::Tilde,
                    ast::UnaryOp::TypeOf => UnaryOp::TypeOf,
                    ast::UnaryOp::Void => UnaryOp::Void,
                    ast::UnaryOp::Delete => UnaryOp::Delete,
                },
                arg: self.boxed(&unary.arg),
            },
            ast::Expr::Update(update) => Node::Update {
                meta: self.meta(at, &format!("update {:?} {}", update.op, update.prefix)),
                arg: self.boxed(&update.arg),
            },
            ast::Expr::Bin(bin) => Node::Bin {
                span: span(at),
                op: match bin.op {
                    ast::BinaryOp::Div => BinaryOp::Div,
                    ast::BinaryOp::Add => BinaryOp::Plus,
                    ast::BinaryOp::Mul => BinaryOp::Mul,
                    ast::BinaryOp::LogicalOr => BinaryOp::LogicalOr,
                    ast::BinaryOp::LogicalAnd => BinaryOp::LogicalAnd,
                    other => panic!("operator {other:?}"),
                },
                left: self.boxed(&bin.left),
                right: self.boxed(&bin.right),
            },
            ast::Expr::Assign(assign) => Node::Assign {
                span: span(at),
                op: match assign.op {
                    ast::AssignOp::Assign => AssignOp::Assign,
                    ast::AssignOp::AddAssign => AssignOp::AddAssign,
                    other => panic!("operator {other:?}"),
                },
                left: Box::new(self.target(&assign.left)),
                right: self.boxed(&assign.right),
            },
            ast::Expr::Member(member) => self.member(member),
            ast::Expr::SuperProp(prop) => {
                let name = match &prop.prop {
                    ast::SuperProp::Ident(name) => {
                        Node::PropIdent { span: span(name.span), sym: name.sym.to_string() }
                    }
                    ast::SuperProp::Computed(computed) => Node::Computed {
                        span: span(computed.span),
                        expr: self.boxed(&computed.expr),
                    },
                };
                Node::SuperProp { meta: self.meta(at, "super"), prop: Box::new(name) }
            }
            ast::Expr::Call(call) => {
                let callee = match &call.callee {
                    ast::Callee::Expr(callee) => self.expr(callee),
                    ast::Callee::Super(callee) => self.other(callee.span, "super", vec![]),
                    ast::Callee::Import(callee) => self.other(callee.span, "import", vec![]),
                };
                Node::Call {
                    span: span(at),
                    ctxt: context(call.ctxt),
                    callee: Box::new(callee),
                    args: self.args(&call.args),
                    types: vec![],
                }
            }
            ast::Expr::New(call) => {
                let mut children = vec![self.expr(&call.callee)];
                children.extend(self.args(call.args.as_deref().unwrap_or(&[])));
                self.other(at, "new", children)
            }
            ast::Expr::Seq(seq) => {
                let exprs = seq.exprs.iter().map(|expr| self.expr(expr)).collect();
                self.other(at, "sequence", exprs)
            }
            ast::Expr::Cond(cond) => {
                let parts = [&cond.test, &cond.cons, &cond.alt];
                let parts = parts.iter().map(|expr| self.expr(expr)).collect();
                self.other(at, "condition", parts)
            }
            ast::Expr::Arrow(arrow) => {
                let params = arrow.params.iter().map(|param| self.pat(param)).collect();
                let body = match &*arrow.body {
                    ast::ArrowFunctionBody::FunctionBody(body) => self.body(body),
                    ast::ArrowFunctionBody::Expr(body) => self.expr(body),
                };
                Node::Arrow {
                    meta: self.meta(at, &format!("arrow {}", arrow.is_async)),
                    params,
                    body: Box::new(body),
                    types: vec![],
                }
            }
            ast::Expr::Paren(paren) => {
                Node::Paren { span: span(at), expr: self.boxed(&paren.expr) }
            }
            ast::Expr::OptChain(chain) => {
                let base = match &*chain.base {
                    ast::OptChainBase::Member(member) => self.member(member),
                    ast::OptChainBase::Call(call) => {
                        let mut children = vec![self.expr(&call.callee)];
                        children.extend(self.args(&call.args));
                        self.other(call.span, "optional call", children)
                    }
                };
                Node::OptChain { span: span(at), optional: chain.optional, base: Box::new(base) }
            }
            ast::Expr::TsAs(typed) => self.typed(TypedKind::As, at, &typed.expr),
            ast::Expr::TsSatisfies(typed) => self.typed(TypedKind::Satisfies, at, &typed.expr),
            ast::Expr::TsNonNull(typed) => self.typed(TypedKind::NonNull, at, &typed.expr),
            ast::Expr::TsTypeAssertion(typed) => {
                self.typed(TypedKind::TypeAssertion, at, &typed.expr)
            }
            ast::Expr::TsConstAssertion(typed) => {
                self.typed(TypedKind::ConstAssertion, at, &typed.expr)
            }
            other => panic!("expression {other:?}"),
        }
    }

    fn name(&mut self, name: &ast::PropName) -> Node {
        match name {
            ast::PropName::Ident(name) => {
                Node::PropIdent { span: span(name.span), sym: name.sym.to_string() }
            }
            ast::PropName::Computed(computed) => Node::Computed {
                span: span(computed.span),
                expr: self.boxed(&computed.expr),
            },
            other => self.other(other.span(), "other name", vec![]),
        }
    }

    fn prop(&mut self, prop: &ast::PropOrSpread) -> Node {
        match prop {
            ast::PropOrSpread::Spread(spread) => {
                let expr = self.expr(&spread.expr);
                self.other(spread.span(), "spread", vec![expr])
            }
            ast::PropOrSpread::Prop(prop) => match &**prop {
                ast::Prop::Shorthand(name) => Node::Ident { ident: ident(name) },
                ast::Prop::KeyValue(prop) => {
                    let parts = vec![self.name(&prop.key), self.expr(&prop.value)];
                    self.other(prop.span(), "property", parts)
                }
                ast::Prop::Method(method) => {
                    let parts = vec![self.name(&method.key), self.function(&method.function)];
                    self.other(method.span(), "method", parts)
                }
                ast::Prop::Getter(getter) => Node::Accessor {
                    meta: self.meta(getter.span, "getter"),
                    key: Box::new(self.name(&getter.key)),
                    function: Box::new(self.function(&getter.function)),
                },
                other => panic!("property {other:?}"),
            },
        }
    }

    fn target(&mut self, target: &ast::AssignTarget) -> Node {
        match target {
            ast::AssignTarget::Simple(ast::SimpleAssignTarget::Ident(name)) => {
                Node::PatIdent { ident: ident(&name.id), types: vec![] }
            }
            ast::AssignTarget::Simple(ast::SimpleAssignTarget::Member(member)) => {
                self.member(member)
            }
            ast::AssignTarget::Simple(ast::SimpleAssignTarget::Paren(paren)) => {
                Node::Paren { span: span(paren.span), expr: self.boxed(&paren.expr) }
            }
            ast::AssignTarget::Pat(ast::AssignTargetPat::Array(array)) => self.array_pat(array),
            ast::AssignTarget::Pat(ast::AssignTargetPat::Object(object)) => {
                self.object_pat(object)
            }
            other => panic!("target {other:?}"),
        }
    }

    fn array_pat(&mut self, array: &ast::ArrayPat) -> Node {
        let elems = array
            .elems
            .iter()
            .map(|elem| match elem {
                Some(elem) => self.pat(elem),
                None => Node::Hole,
            })
            .collect();
        Node::PatArray { meta: self.meta(array.span, "array pattern"), elems, types: vec![] }
    }

    fn object_pat(&mut self, object: &ast::ObjectPat) -> Node {
        let props = object
            .props
            .iter()
            .map(|prop| match prop {
                ast::ObjectPatProp::KeyValue(prop) => Node::PatProp {
                    key: Box::new(self.name(&prop.key)),
                    value: Box::new(self.pat(&prop.value)),
                },
                ast::ObjectPatProp::Assign(prop) => Node::PatShorthand {
                    span: span(prop.span),
                    ident: ident(&prop.key.id),
                    types: vec![],
                    value: prop.value.as_ref().map(|value| self.boxed(value)),
                },
                ast::ObjectPatProp::Rest(rest) => self.rest(rest),
            })
            .collect();
        Node::PatObject { meta: self.meta(object.span, "object pattern"), props, types: vec![] }
    }

    fn rest(&mut self, rest: &ast::RestPat) -> Node {
        Node::PatRest {
            meta: self.meta(rest.span, "rest"),
            arg: Box::new(self.pat(&rest.arg)),
            types: vec![],
        }
    }

    fn pat(&mut self, pat: &ast::Pat) -> Node {
        match pat {
            ast::Pat::Ident(name) => Node::PatIdent { ident: ident(&name.id), types: vec![] },
            ast::Pat::Array(array) => self.array_pat(array),
            ast::Pat::Object(object) => self.object_pat(object),
            ast::Pat::Rest(rest) => self.rest(rest),
            ast::Pat::Assign(assign) => Node::PatAssign {
                span: span(assign.span),
                left: Box::new(self.pat(&assign.left)),
                right: self.boxed(&assign.right),
            },
            ast::Pat::Expr(expr) => self.expr(expr),
            ast::Pat::Invalid(_) => panic!("invalid pattern"),
        }
    }

    fn param(&mut self, param: &ast::Param) -> Node {
        Node::Param {
            meta: self.meta(param.span, "parameter"),
            decorators: vec![],
            pat: Box::new(self.pat(&param.pat)),
        }
    }

    fn body(&mut self, body: &ast::FunctionBody) -> Node {
        Node::FunctionBody { span: span(body.span), stmts: self.stmts(&body.stmts) }
    }

    fn function(&mut self, function: &ast::Function) -> Node {
        let params = function.params.iter().map(|param| self.param(param)).collect();
        let body = function.body.as_ref().map(|body| Box::new(self.body(body)));
        let kind = format!("function {} {}", function.is_async, function.is_generator);
        Node::Function {
            meta: self.meta(function.span, &kind),
            this_param: vec![],
            params,
            decorators: vec![],
            body,
            types: vec![],
        }
    }

    fn class(&mut self, class: &ast::Class) -> Node {
        let mut children = vec![];
        if let Some(parent) = &class.super_class {
            children.push(self.expr(parent));
        }
        for member in &class.body {
            children.push(match member {
                ast::ClassMember::Constructor(constructor) => {
                    let params = constructor
                        .params
                        .iter()
                        .map(|param| match param {
                            ast::ParamOrTsParamProp::Param(param) => self.param(param),
                            other => panic!("parameter {other:?}"),
                        })
                        .collect();
                    Node::Constructor {
                        meta: self.meta(constructor.span, "constructor"),
                        key: Box::new(self.name(&constructor.key)),
                        params,
                        body: constructor.body.as_ref().map(|body| Box::new(self.body(body))),
                    }
                }
                ast::ClassMember::Method(method) => {
                    let parts = vec![self.name(&method.key), self.function(&method.function)];
                    self.other(method.span, "class method", parts)
                }
                ast::ClassMember::ClassProp(prop) => Node::Field {
                    meta: self.meta(prop.span, &format!("field {}", prop.is_static)),
                    key: Box::new(self.name(&prop.key)),
                    value: prop.value.as_ref().map(|value| self.boxed(value)),
                    types: vec![],
                    decorators: vec![],
                },
                ast::ClassMember::StaticBlock(block) => Node::StaticBlock {
                    span: span(block.span),
                    body: Box::new(self.block(&block.body)),
                },
                other => panic!("class member {other:?}"),
            });
        }
        self.other(class.span, "class", children)
    }

    fn block(&mut self, block: &ast::BlockStmt) -> Node {
        Node::Block { meta: self.meta(block.span, "block"), stmts: self.stmts(&block.stmts) }
    }

    fn stmts(&mut self, stmts: &[ast::Stmt]) -> Vec<Node> {
        stmts.iter().map(|stmt| self.stmt(stmt)).collect()
    }

    fn var_decl(&mut self, decl: &ast::VarDecl) -> Node {
        let decls = decl
            .decls
            .iter()
            .map(|item| Node::Declarator {
                meta: self.meta(item.span, "declarator"),
                name: Box::new(self.pat(&item.name)),
                init: item.init.as_ref().map(|init| self.boxed(init)),
            })
            .collect();
        Node::VarDecl {
            meta: self.meta(decl.span, "declaration"),
            kind: match decl.kind {
                ast::VarDeclKind::Var => VarDeclKind::Var,
                ast::VarDeclKind::Let => VarDeclKind::Let,
                ast::VarDeclKind::Const => VarDeclKind::Const,
            },
            decls,
        }
    }

    fn for_each(
        &mut self,
        at: SwcSpan,
        kind: &str,
        left: &ast::ForHead,
        right: &ast::Expr,
        body: &ast::Stmt,
    ) -> Node {
        let left = match left {
            ast::ForHead::VarDecl(decl) => self.var_decl(decl),
            ast::ForHead::Pat(pat) => self.pat(pat),
            other => panic!("head {other:?}"),
        };
        Node::ForEach {
            meta: self.meta(at, kind),
            left: Box::new(left),
            right: self.boxed(right),
            body: Box::new(self.stmt(body)),
        }
    }

    fn stmt(&mut self, stmt: &ast::Stmt) -> Node {
        let at = stmt.span();
        match stmt {
            ast::Stmt::Block(block) => self.block(block),
            ast::Stmt::Empty(_) => self.other(at, "empty", vec![]),
            ast::Stmt::With(with) => Node::With {
                span: span(at),
                obj: self.boxed(&with.obj),
                body: Box::new(self.stmt(&with.body)),
            },
            ast::Stmt::Return(ret) => {
                let parts = ret.arg.iter().map(|arg| self.expr(arg)).collect();
                self.other(at, "return", parts)
            }
            ast::Stmt::If(cond) => {
                let mut parts = vec![self.expr(&cond.test), self.stmt(&cond.cons)];
                if let Some(alt) = &cond.alt {
                    parts.push(self.stmt(alt));
                }
                self.other(at, "if", parts)
            }
            ast::Stmt::Switch(switch) => {
                let mut parts = vec![self.expr(&switch.discriminant)];
                for case in &switch.cases {
                    let test = case.test.as_ref().map(|test| self.boxed(test));
                    let cons = self.stmts(&case.cons);
                    parts.push(Node::SwitchCase { span: span(case.span), test, cons });
                }
                self.other(at, "switch", parts)
            }
            ast::Stmt::Try(attempt) => {
                let mut parts = vec![self.block(&attempt.block)];
                if let Some(handler) = &attempt.handler {
                    let param = handler.param.as_ref().map(|param| Box::new(self.pat(param)));
                    let body = Box::new(self.block(&handler.body));
                    parts.push(Node::Catch { span: span(handler.span), param, body });
                }
                if let Some(finalizer) = &attempt.finalizer {
                    parts.push(self.block(finalizer));
                }
                self.other(at, "try", parts)
            }
            ast::Stmt::ForIn(each) => {
                self.for_each(at, "for in", &each.left, &each.right, &each.body)
            }
            ast::Stmt::ForOf(each) => {
                self.for_each(at, "for of", &each.left, &each.right, &each.body)
            }
            ast::Stmt::Decl(ast::Decl::Var(decl)) => self.var_decl(decl),
            ast::Stmt::Decl(ast::Decl::Fn(decl)) => Node::FnDecl {
                meta: self.meta(at, "function declaration"),
                ident: ident(&decl.ident),
                function: Box::new(self.function(&decl.function)),
            },
            ast::Stmt::Decl(ast::Decl::Class(decl)) => Node::ClassDecl {
                meta: self.meta(at, "class declaration"),
                ident: ident(&decl.ident),
                class: Box::new(self.class(&decl.class)),
            },
            ast::Stmt::Expr(stmt) => {
                Node::ExprStmt { span: span(at), expr: self.boxed(&stmt.expr) }
            }
            other => panic!("statement {other:?}"),
        }
    }

    fn item(&mut self, item: &ast::ModuleItem) -> Node {
        match item {
            ast::ModuleItem::Stmt(stmt) => self.stmt(stmt),
            ast::ModuleItem::ModuleDecl(ast::ModuleDecl::Import(import)) => {
                let source = format!("import from {:?}", import.src.value);
                let specifiers = import
                    .specifiers
                    .iter()
                    .map(|specifier| {
                        let (kind, local) = match specifier {
                            ast::ImportSpecifier::Named(named) => {
                                (SpecifierKind::Named, &named.local)
                            }
                            ast::ImportSpecifier::Default(default) => {
                                (SpecifierKind::Default, &default.local)
                            }
                            ast::ImportSpecifier::Namespace(namespace) => {
                                (SpecifierKind::Namespace, &namespace.local)
                            }
                        };
                        Node::Specifier {
                            meta: self.meta(specifier.span(), "specifier"),
                            kind,
                            local: ident(local),
                            rest: vec![],
                        }
                    })
                    .collect();
                Node::Import { meta: self.meta(import.span, &source), specifiers, rest: vec![] }
            }
            other => panic!("item {other:?}"),
        }
    }
}

/// Writes the library's syntax as text, without positions and contexts. A spread array
/// literal is written as the arguments that it stands for, and each name that is imported
/// on a line of its own.
struct Writer<'a> {
    shapes: &'a [String],
}

impl Writer<'_> {
    fn list(&self, nodes: &[Node]) -> String {
        let texts: Vec<String> = nodes.iter().map(|node| self.node(node)).collect();
        texts.join(" ")
    }

    fn opt(&self, part: &Option<Box<Node>>) -> String {
        match part {
            Some(part) => self.node(part),
            None => String::from("-"),
        }
    }

    fn args(&self, args: &[Node]) -> String {
        let mut texts: Vec<String> = vec![];
        for arg in args {
            match arg {
                Node::Arg { spread: Some(_), expr } => match &**expr {
                    Node::Array { elems, .. } => {
                        for elem in elems {
                            texts.push(match elem {
                                Node::Hole => String::from("(arg (Void (num 0)))"),
                                elem => self.node(elem),
                            });
                        }
                    }
                    _ => texts.push(self.node(arg)),
                },
                _ => texts.push(self.node(arg)),
            }
        }
        texts.join(" ")
    }

    fn node(&self, node: &Node) -> String {
        match node {
            Node::Ident { ident } => ident.sym.clone(),
            Node::This { .. } => String::from("this"),
            Node::Num { bits, .. } => format!("(num {})", f64::from_bits(*bits)),
            Node::Null { .. } => String::from("null"),
            Node::Array { elems, .. } => format!("[{}]", self.list(elems)),
            Node::Hole => String::from("hole"),
            Node::Arg { spread, expr } => {
                let kind = if spread.is_some() { "spread" } else { "arg" };
                format!("({} {})", kind, self.node(expr))
            }
            Node::Call { callee, args, .. } => {
                format!("(call {} {})", self.node(callee), self.args(args))
            }
            Node::Member { obj, prop, .. } => {
                format!("(member {} {})", self.node(obj), self.node(prop))
            }
            Node::PropIdent { sym, .. } => format!(".{sym}"),
            Node::Computed { expr, .. } => format!("(computed {})", self.node(expr)),
            Node::SuperProp { prop, .. } => format!("(super {})", self.node(prop)),
            Node::OptChain { optional, base, .. } => {
                format!("(chain {} {})", optional, self.node(base))
            }
            Node::Assign { op, left, right, .. } => {
                format!("({:?} {} {})", op, self.node(left), self.node(right))
            }
            Node::Update { meta, arg } => {
                format!("({} {})", self.shapes[meta.shape as usize], self.node(arg))
            }
            Node::Unary { op, arg, .. } => format!("({:?} {})", op, self.node(arg)),
            Node::Bin { op, left, right, .. } => {
                format!("({:?} {} {})", op, self.node(left), self.node(right))
            }
            Node::Paren { expr, .. } => format!("(paren {})", self.node(expr)),
            Node::Typed { kind, expr, .. } => format!("({:?} {})", kind, self.node(expr)),
            Node::FnExpr { name, function } => {
                let name = name.as_ref().map(|name| name.sym.as_str()).unwrap_or("-");
                format!("(fn {} {})", name, self.node(function))
            }
            Node::ClassExpr { name, class } => {
                let name = name.as_ref().map(|name| name.sym.as_str()).unwrap_or("-");
                format!("(class {} {})", name, self.node(class))
            }
            Node::Arrow { params, body, .. } => {
                format!("(arrow ({}) {})", self.list(params), self.node(body))
            }
            Node::Function { params, body, .. } => {
                format!("(function ({}) {})", self.list(params), self.opt(body))
            }
            Node::Param { pat, .. } => self.node(pat),
            Node::FunctionBody { stmts, .. } => format!("{{{}}}", self.list(stmts)),
            Node::Constructor { params, body, .. } => {
                format!("(constructor ({}) {})", self.list(params), self.opt(body))
            }
            Node::Field { key, value, .. } => {
                format!("(field {} {})", self.node(key), self.opt(value))
            }
            Node::StaticBlock { body, .. } => format!("(static {})", self.node(body)),
            Node::Accessor { key, function, .. } => {
                format!("(accessor {} {})", self.node(key), self.node(function))
            }
            Node::PatIdent { ident, .. } => ident.sym.clone(),
            Node::PatArray { elems, .. } => format!("[{}]", self.list(elems)),
            Node::PatObject { props, .. } => format!("{{{}}}", self.list(props)),
            Node::PatAssign { left, right, .. } => {
                format!("({} = {})", self.node(left), self.node(right))
            }
            Node::PatRest { arg, .. } => format!("(rest {})", self.node(arg)),
            Node::PatProp { key, value } => {
                format!("({} : {})", self.node(key), self.node(value))
            }
            Node::PatShorthand { ident, value, .. } => {
                format!("({} = {})", ident.sym, self.opt(value))
            }
            Node::ExprStmt { expr, .. } => format!("{};", self.node(expr)),
            Node::VarDecl { kind, decls, .. } => format!("({:?} {})", kind, self.list(decls)),
            Node::Declarator { name, init, .. } => {
                format!("({} = {})", self.node(name), self.opt(init))
            }
            Node::FnDecl { ident, function, .. } => {
                format!("(declare {} {})", ident.sym, self.node(function))
            }
            Node::ClassDecl { ident, class, .. } => {
                format!("(declare {} {})", ident.sym, self.node(class))
            }
            Node::Block { stmts, .. } => format!("{{{}}}", self.list(stmts)),
            Node::SwitchCase { test, cons, .. } => {
                format!("(case {} {})", self.opt(test), self.list(cons))
            }
            Node::With { obj, body, .. } => {
                format!("(with {} {})", self.node(obj), self.node(body))
            }
            Node::ForEach { meta, left, right, body } => format!(
                "({} {} {} {})",
                self.shapes[meta.shape as usize],
                self.node(left),
                self.node(right),
                self.node(body)
            ),
            Node::Catch { param, body, .. } => {
                format!("(catch {} {})", self.opt(param), self.node(body))
            }
            Node::Import { meta, specifiers, .. } => {
                let source = &self.shapes[meta.shape as usize];
                let mut lines: Vec<String> = specifiers
                    .iter()
                    .map(|specifier| format!("({} {})", source, self.node(specifier)))
                    .collect();
                lines.sort();
                lines.join("\n")
            }
            Node::Specifier { kind, local, .. } => format!("({:?} {})", kind, local.sym),
            Node::Other { meta, children } => {
                format!("({} {})", self.shapes[meta.shape as usize], self.list(children))
            }
        }
    }

    /// The items, one to a line, with the imported names in front, in the order of their text.
    fn module(&self, module: &Module) -> String {
        let mut imports: Vec<String> = vec![];
        let mut items: Vec<String> = vec![];
        for item in &module.body {
            match item {
                Node::Import { .. } => {
                    imports.extend(self.node(item).lines().map(String::from));
                }
                _ => items.push(self.node(item)),
            }
        }
        imports.sort();
        imports.extend(items);
        imports.join("\n")
    }
}

fn read(reader: &mut Reader, source: &str, typescript: bool) -> (Module, Mark) {
    let sources: Lrc<SourceMap> = Default::default();
    let file = sources.new_source_file(FileName::Anon.into(), source.to_string());
    let syntax = if typescript {
        Syntax::Typescript(TsSyntax::default())
    } else {
        Syntax::Es(EsSyntax::default())
    };
    let mut errors = vec![];
    let parsed =
        parse_file_as_module(&file, syntax, ast::EsVersion::latest(), None, &mut errors);
    let mut parsed = match parsed {
        Ok(parsed) => parsed,
        Err(error) => panic!("{error:?}"),
    };
    let unresolved_mark = SwcMark::new();
    let top_level_mark = SwcMark::new();
    parsed.visit_mut_with(&mut resolver(unresolved_mark, top_level_mark, typescript));
    let body = parsed.body.iter().map(|item| reader.item(item)).collect();
    (Module { span: span(parsed.span), body }, mark(unresolved_mark))
}

/// Checks that `rewrite` makes `expected` of `source`.
fn check(source: &str, expected: &str, typescript: bool, rewrite: &dyn Fn(&mut Module, Mark)) {
    GLOBALS.set(&Globals::new(), || {
        let mut reader = Reader { shapes: vec![] };
        let (mut module, unresolved_mark) = read(&mut reader, source, typescript);
        let (wanted, _) = read(&mut reader, expected, typescript);
        rewrite(&mut module, unresolved_mark);
        let writer = Writer { shapes: &reader.shapes };
        assert_eq!(writer.module(&module), writer.module(&wanted));
    });
}

fn check_spread(source: &str, expected: &str) {
    check(source, expected, false, &|module, unresolved_mark| {
        UnArgumentSpread::new(unresolved_mark, RewriteLevel::Standard).visit_mut_module(module);
    });
}

fn check_has_own(source: &str, level: RewriteLevel, expected: &str) {
    check(source, expected, false, &|module, unresolved_mark| {
        UnHasOwnCall::new(level, unresolved_mark).visit_mut_module(module);
    });
}

fn check_infinity(source: &str, expected: &str) {
    check(source, expected, false, &|module, unresolved_mark| {
        UnInfinity::new(unresolved_mark).visit_mut_module(module);
    });
}

#[test]
fn converts_reflect_apply_for_standalone_functions() {
    check_spread(
        r#"
Reflect.apply(fn, undefined, args);
Reflect.apply(fn, void 0, args);
Reflect.apply(fn, null, args);
Reflect.apply(fn, null, [first, second]);
Reflect.apply(fn, undefined, [{ ...options }]);
Reflect.apply(eval, undefined, [source]);
Reflect.apply(eval, undefined, args);
Reflect.apply(fn, undefined, ([first, second]));
Reflect.apply(fn, undefined, []);
Reflect.apply(fn, undefined, [first, , third]);
"#,
        r#"
fn(...args);
fn(...args);
fn(...args);
fn(first, second);
fn({ ...options });
Reflect.apply(eval, undefined, [source]);
Reflect.apply(eval, undefined, args);
fn(first, second);
fn();
fn(first, void 0, third);
"#,
    );
}

#[test]
fn converts_reflect_apply_for_same_receiver_methods() {
    check_spread(
        r#"
const object = {};
Reflect.apply(object.method, object, args);
Reflect.apply(object[key], object, args);
Reflect.apply(object.method, object, [first, , third]);
Reflect.apply(object.method, object, [first, ...rest]);
Reflect.apply(this.method, this, args);
"#,
        r#"
const object = {};
object.method(...args);
object[key](...args);
object.method(first, void 0, third);
object.method(first, ...rest);
this.method(...args);
"#,
    );
}

#[test]
fn preserves_reflect_apply_when_receiver_semantics_are_not_proven() {
    check_spread(
        r#"
const stable = {};
let object = first;
Reflect.apply(stable.method, stable, args);
Reflect.apply(fn, undefined, args);
Reflect.apply(fn, object, args);
Reflect.apply(object.method, other, args);
Reflect.apply(object.method, null, args);
Reflect.apply(object.nested.method, object.nested, args);
Reflect.apply(getObject().method, getObject(), args);
Reflect.apply(getObject()[key()], getObject(), args);
let changing = first;
function changingKey() { changing = second; return "method"; }
Reflect.apply(changing[changingKey()], changing, args);
function wrapper(Reflect, args) { return Reflect.apply(undefined, args); }
function undefinedWrapper(undefined) { return Reflect.apply(fn, undefined, args); }
object = second;
"#,
        r#"
const stable = {};
let object = first;
stable.method(...args);
fn(...args);
Reflect.apply(fn, object, args);
Reflect.apply(object.method, other, args);
Reflect.apply(object.method, null, args);
Reflect.apply(object.nested.method, object.nested, args);
Reflect.apply(getObject().method, getObject(), args);
Reflect.apply(getObject()[key()], getObject(), args);
let changing = first;
function changingKey() { changing = second; return "method"; }
Reflect.apply(changing[changingKey()], changing, args);
function wrapper(Reflect, args) { return Reflect(...args); }
function undefinedWrapper(undefined) { return Reflect.apply(fn, undefined, args); }
object = second;
"#,
    );
}

#[test]
fn preserves_spread_arguments() {
    check_spread(
        "Reflect.apply(...target, undefined, args);\nReflect.apply(fn, ...thisArg, args);\nReflect.apply(fn, undefined, ...args);\nReflect.apply(fn, undefined, [first, ...rest]);\nReflect.apply(fn, undefined, ([first, ...rest]));\nReflect.apply(fn, undefined, args);",
        "Reflect.apply(...target, undefined, args);\nReflect.apply(fn, ...thisArg, args);\nReflect.apply(fn, undefined, ...args);\nfn(first, ...rest);\nfn(first, ...rest);\nfn(...args);",
    );
}

#[test]
fn preserves_shadowed_reflect() {
    check_spread(
        "function wrapper(Reflect) { return Reflect.apply(fn, undefined, args); }\n{ const Reflect = custom; Reflect.apply(fn, undefined, args); Reflect.apply(fn, undefined, args); }\nwith ({ Reflect: { apply() { sideEffect(); } } }) { Reflect.apply(fn, undefined, args); }\nReflect.apply(fn, undefined, args);",
        "function wrapper(Reflect) { return Reflect.apply(fn, undefined, args); }\n{ const Reflect = custom; Reflect.apply(fn, undefined, args); Reflect.apply(fn, undefined, args); }\nwith ({ Reflect: { apply() { sideEffect(); } } }) { Reflect.apply(fn, undefined, args); }\nfn(...args);",
    );
}

#[test]
fn preserves_eval_targets_and_parameter_eval_scopes() {
    check_spread(
        r#"
function wrapper(eval) {
    return Reflect.apply(eval, undefined, args);
}
function run(value = eval("var Reflect = custom")) {
    return Reflect.apply(fn, undefined, args);
}
Reflect.apply(fn, undefined, args);
"#,
        r#"
function wrapper(eval) {
    return Reflect.apply(eval, undefined, args);
}
function run(value = eval("var Reflect = custom")) {
    return Reflect.apply(fn, undefined, args);
}
fn(...args);
"#,
    );
}

#[test]
fn preserves_reflect_only_inside_direct_eval_scopes() {
    check_spread(
        r#"
function dynamic(fn, args) {
    eval("var Reflect = custom");
    return Reflect.apply(fn, undefined, args);
}
class Holder {
    value = eval("");
}
function unused() { eval(""); }
Reflect.apply(fn, undefined, args);
"#,
        r#"
function dynamic(fn, args) {
    eval("var Reflect = custom");
    return Reflect.apply(fn, undefined, args);
}
class Holder {
    value = eval("");
}
function unused() { eval(""); }
fn(...args);
"#,
    );
}

#[test]
fn covers_arrow_and_transparent_typescript_eval_scopes() {
    check(
        r#"
const arrow = (args) => {
    eval("var Reflect = custom");
    return Reflect.apply(fn, undefined, args);
};
const parameterArrow = (value = eval("var Reflect = custom")) => Reflect.apply(fn, undefined, args);
Reflect.apply(fn, undefined, ([first, second] as unknown[]));
Reflect.apply(fn, undefined, (<unknown[]>[first, second]));
Reflect.apply(fn, undefined, args);
"#,
        r#"
const arrow = (args) => {
    eval("var Reflect = custom");
    return Reflect.apply(fn, undefined, args);
};
const parameterArrow = (value = eval("var Reflect = custom")) => Reflect.apply(fn, undefined, args);
fn(first, second);
fn(first, second);
fn(...args);
"#,
        true,
        &|module, unresolved_mark| {
            UnArgumentSpread::new(unresolved_mark, RewriteLevel::Standard)
                .visit_mut_module(module);
        },
    );
}

#[test]
fn distinguishes_namespace_and_live_import_receivers() {
    check_spread(
        r#"
import * as namespace from "./dependency";
import { receiver } from "./dependency";
import defaultReceiver from "./dependency";
Reflect.apply(namespace.method, namespace, args);
Reflect.apply(receiver.method, receiver, args);
Reflect.apply(defaultReceiver.method, defaultReceiver, args);
"#,
        r#"
import * as namespace from "./dependency";
import defaultReceiver, { receiver } from "./dependency";
namespace.method(...args);
Reflect.apply(receiver.method, receiver, args);
Reflect.apply(defaultReceiver.method, defaultReceiver, args);
"#,
    );
}

fn check_safe_call() {
    check_has_own(
        "const safe = Object.prototype.hasOwnProperty.call(value, key);",
        RewriteLevel::Aggressive,
        "const safe = Object.hasOwn(value, key);",
    );
}

#[test]
fn recovers_the_canonical_global_call() {
    check_has_own(
        "const a = Object.prototype.hasOwnProperty.call(value, key); const b = wrap(Object.prototype.hasOwnProperty.call(other, name));",
        RewriteLevel::Aggressive,
        "const a = Object.hasOwn(value, key); const b = wrap(Object.hasOwn(other, name));",
    );
    check_safe_call();
}

#[test]
fn preserves_shadowed_and_dynamic_forms() {
    check_has_own(
        r#"
function local(Object) { return Object.prototype.hasOwnProperty.call(value, key); }
const computed = Object.prototype[method].call(value, key);
const computedBase = Object[prototypeName].hasOwnProperty.call(value, key);
const wrongMethod = Object.prototype.propertyIsEnumerable.call(value, key);
"#,
        RewriteLevel::Aggressive,
        r#"
function local(Object) { return Object.prototype.hasOwnProperty.call(value, key); }
const computed = Object.prototype[method].call(value, key);
const computedBase = Object[prototypeName].hasOwnProperty.call(value, key);
const wrongMethod = Object.prototype.propertyIsEnumerable.call(value, key);
"#,
    );
    check_safe_call();
}

#[test]
fn preserves_invalid_argument_shapes() {
    check_has_own(
        r#"
const missing = Object.prototype.hasOwnProperty.call(value);
const extra = Object.prototype.hasOwnProperty.call(value, key, extra);
const spread = Object.prototype.hasOwnProperty.call(...args);
const optional = Object?.prototype.hasOwnProperty.call(value, key);
"#,
        RewriteLevel::Aggressive,
        r#"
const missing = Object.prototype.hasOwnProperty.call(value);
const extra = Object.prototype.hasOwnProperty.call(value, key, extra);
const spread = Object.prototype.hasOwnProperty.call(...args);
const optional = Object?.prototype.hasOwnProperty.call(value, key);
"#,
    );
    check_safe_call();
}

/// Puts the values of constant aliases in the place of the aliases.
fn inline_aliases(module: &mut Module) {
    let mut aliases: Vec<(Ident, Node)> = vec![];
    module.body.retain(|item| {
        if let Node::VarDecl { kind: VarDeclKind::Const, decls, .. } = item {
            if let [Node::Declarator { name, init: Some(init), .. }] = decls.as_slice() {
                if let (Node::PatIdent { ident, .. }, Node::Ident { .. } | Node::Member { .. }) =
                    (&**name, &**init)
                {
                    aliases.push((ident.clone(), (**init).clone()));
                    return false;
                }
            }
        }
        true
    });
    for item in &mut module.body {
        inline_in(item, &aliases);
    }
}

fn inline_in(node: &mut Node, aliases: &[(Ident, Node)]) {
    match node {
        Node::Ident { ident } => {
            let value = aliases
                .iter()
                .find(|(alias, _)| alias.sym == ident.sym && alias.ctxt == ident.ctxt);
            if let Some((_, value)) = value {
                *node = value.clone();
            }
        }
        Node::ExprStmt { expr, .. } => inline_in(expr, aliases),
        Node::Member { obj, .. } => inline_in(obj, aliases),
        Node::Unary { arg, .. } => inline_in(arg, aliases),
        Node::Assign { left, right, .. } => {
            inline_in(left, aliases);
            inline_in(right, aliases);
        }
        _ => {}
    }
}

#[test]
fn any_static_mutation_blocks_earlier_and_later_calls() {
    check(
        r#"
const O = Object;
const P = Object.prototype;
const before = Object.prototype.hasOwnProperty.call(value, key);
O.prototype.hasOwnProperty = replacement;
const after = Object.prototype.hasOwnProperty.call(value, key);
delete P.hasOwnProperty;
const later = Object.prototype.hasOwnProperty.call(value, key);
"#,
        r#"
const before = Object.prototype.hasOwnProperty.call(value, key);
Object.prototype.hasOwnProperty = replacement;
const after = Object.prototype.hasOwnProperty.call(value, key);
delete Object.prototype.hasOwnProperty;
const later = Object.prototype.hasOwnProperty.call(value, key);
"#,
        false,
        &|module, unresolved_mark| {
            UnHasOwnCall::new(RewriteLevel::Aggressive, unresolved_mark).visit_mut_module(module);
            inline_aliases(module);
        },
    );
    check_safe_call();
}

#[test]
fn assignment_update_and_delete_are_all_barriers() {
    check_has_own(
        r#"
Object = otherObject;
const a = Object.prototype.hasOwnProperty.call(value, key);
Object.prototype = otherPrototype;
const prototypeReplaced = Object.prototype.hasOwnProperty.call(value, key);
delete Object.prototype.hasOwnProperty;
const b = Object.prototype.hasOwnProperty.call(value, key);
delete Object.prototype;
const prototypeDeleted = Object.prototype.hasOwnProperty.call(value, key);
Object.prototype.hasOwnProperty++;
const c = Object.prototype.hasOwnProperty.call(value, key);
"#,
        RewriteLevel::Aggressive,
        r#"
Object = otherObject;
const a = Object.prototype.hasOwnProperty.call(value, key);
Object.prototype = otherPrototype;
const prototypeReplaced = Object.prototype.hasOwnProperty.call(value, key);
delete Object.prototype.hasOwnProperty;
const b = Object.prototype.hasOwnProperty.call(value, key);
delete Object.prototype;
const prototypeDeleted = Object.prototype.hasOwnProperty.call(value, key);
Object.prototype.hasOwnProperty++;
const c = Object.prototype.hasOwnProperty.call(value, key);
"#,
    );
    check_safe_call();
}

#[test]
fn aliases_to_object_and_prototype_are_mutation_barriers() {
    check_has_own(
        r#"
const before = Object.prototype.hasOwnProperty.call(value, key);
Object.prototype.hasOwnProperty = replacement;
const after = Object.prototype.hasOwnProperty.call(value, key);
"#,
        RewriteLevel::Aggressive,
        r#"
const before = Object.prototype.hasOwnProperty.call(value, key);
Object.prototype.hasOwnProperty = replacement;
const after = Object.prototype.hasOwnProperty.call(value, key);
"#,
    );
    check_safe_call();
}

#[test]
fn dynamic_scope_blocks_recovery_conservatively() {
    check_has_own(
        r#"
with (scope) { consume(Object.prototype.hasOwnProperty.call(value, key)); }
const afterWith = Object.prototype.hasOwnProperty.call(value, key);
"#,
        RewriteLevel::Aggressive,
        r#"
with (scope) { consume(Object.prototype.hasOwnProperty.call(value, key)); }
const afterWith = Object.prototype.hasOwnProperty.call(value, key);
"#,
    );
    check_safe_call();
}

#[test]
fn direct_eval_blocks_recovery_conservatively() {
    check_has_own(
        "eval(code); const value = Object.prototype.hasOwnProperty.call(object, key);",
        RewriteLevel::Aggressive,
        "eval(code); const value = Object.prototype.hasOwnProperty.call(object, key);",
    );
    check_safe_call();
}

#[test]
fn recovery_is_aggressive_only() {
    let input = "const value = Object.prototype.hasOwnProperty.call(object, key);";
    check_has_own(input, RewriteLevel::Minimal, input);
    check_has_own(input, RewriteLevel::Standard, input);
    check_has_own(
        input,
        RewriteLevel::Aggressive,
        "const value = Object.hasOwn(object, key);",
    );
}

#[test]
fn a_shadowed_nested_scope_does_not_block_a_safe_sibling() {
    check_has_own(
        r#"
function local(Object) { return Object.prototype.hasOwnProperty.call(value, key); }
const safe = Object.prototype.hasOwnProperty.call(other, name);
"#,
        RewriteLevel::Aggressive,
        r#"
function local(Object) { return Object.prototype.hasOwnProperty.call(value, key); }
const safe = Object.hasOwn(other, name);
"#,
    );
}

// Writes through the names under which `Object` and its prototype go.

#[test]
fn writes_through_aliases_stop_the_recovery() {
    for barrier in [
        "const O = Object; O.prototype = other;",
        "const O = Object; O.prototype.hasOwn = other;",
        "const P = Object.prototype; P.hasOwnProperty = other;",
        "const P = Object.prototype; P.hasOwn++;",
        "const O = Object; const P = O.prototype; delete P.hasOwnProperty;",
        "function f() { const O = Object; O.prototype.hasOwnProperty = other; }",
        "function f() { const P = Object.prototype; delete P.hasOwn; }",
        "function f() { const O = Object; const P = O.prototype; delete P.hasOwnProperty; }",
        "[Object] = other;",
        "function f() { with (scope) {} }",
        "function f() { return eval(code); }",
    ] {
        let input = format!("{barrier} Object.prototype.hasOwnProperty.call(value, key);");
        check_has_own(&input, RewriteLevel::Aggressive, &input);
    }
}

#[test]
fn other_writes_do_not_stop_the_recovery() {
    for other in [
        "const O = Object; O.keys = other;",
        "const P = Object.prototype; P.toString = other;",
        "P.hasOwnProperty = other; const P = Object.prototype;",
        "const P = Object.prototype; const Q = P; Q.hasOwnProperty = other;",
        "var P = Object; var P = Object.prototype; P.hasOwnProperty = other;",
        "function f(eval) { return eval(code); }",
        "(0, eval)(code);",
        "value = Object.prototype.hasOwnProperty;",
    ] {
        check_has_own(
            &format!("{other} Object.prototype.hasOwnProperty.call(value, key);"),
            RewriteLevel::Aggressive,
            &format!("{other} Object.hasOwn(value, key);"),
        );
    }
}

#[test]
fn recovery_looks_through_parentheses_and_into_arguments() {
    check_has_own(
        "((Object.prototype).hasOwnProperty).call(Object.prototype.hasOwnProperty.call(a, b), c);",
        RewriteLevel::Aggressive,
        "Object.hasOwn(Object.hasOwn(a, b), c);",
    );
}

#[test]
fn recovery_twice_is_recovery_once() {
    check(
        "f(Object.prototype.hasOwnProperty.call(a, b));",
        "f(Object.hasOwn(a, b));",
        false,
        &|module, unresolved_mark| {
            let mut rule = UnHasOwnCall::new(RewriteLevel::Aggressive, unresolved_mark);
            rule.visit_mut_module(module);
            rule.visit_mut_module(module);
            assert!(!rule.blocked);
        },
    );
}

// Calls through `Function.prototype.apply`.

#[test]
fn converts_apply_without_a_receiver() {
    check_spread(
        "fn.apply(null, args); fn.apply(undefined, args); fn.apply(void 0, args); fn.apply(null, [a, b]); f(g.apply(null, x));",
        "fn(...args); fn(...args); fn(...args); fn(...[a, b]); f(g(...x));",
    );
}

#[test]
fn converts_apply_with_the_same_receiver() {
    check_spread(
        "obj.fn.apply(obj, args); this.fn.apply(this, args); obj[key].apply(obj, args);",
        "obj.fn(...args); this.fn(...args); obj[key](...args);",
    );
}

#[test]
fn converts_apply_with_a_memoized_receiver() {
    check_spread(
        "(_a = root.child).method.apply(_a, args); (_b = f()).method.apply(_b, args);",
        "root.child.method(...args); f().method(...args);",
    );
}

#[test]
fn preserves_other_apply_calls() {
    let input = r#"
obj.fn.apply(other, args);
obj.fn.apply(null, args);
obj.child.fn.apply(obj.child, args);
fn.apply(obj, args);
fn.apply(null);
fn.apply(null, a, b);
fn.apply(null, ...args);
fn.apply(...receiver, args);
fn["apply"](null, args);
(_a = root.child).method.apply(_b, args);
(_a += root.child).method.apply(_a, args);
function shadowed(undefined) { fn.apply(undefined, args); }
"#;
    check_spread(input, input);
}

#[test]
fn spread_calls_need_the_standard_level() {
    let input = "fn.apply(null, args); Reflect.apply(fn, null, args); { var m; m = o.f; m.apply(o, x); }";
    check(input, input, false, &|module, unresolved_mark| {
        UnArgumentSpread::new(unresolved_mark, RewriteLevel::Minimal).visit_mut_module(module);
    });
    for level in [RewriteLevel::Standard, RewriteLevel::Aggressive] {
        check(input, "fn(...args); fn(...args); { o.f(...x); }", false, &|module, mark| {
            UnArgumentSpread::new(mark, level).visit_mut_module(module);
        });
    }
}

#[test]
fn converts_reflect_apply_on_super() {
    check_spread(
        r#"
class Child extends Parent {
    run() {
        Reflect.apply(super.run, this, args);
        Reflect.apply(super.run, other, args);
        Reflect.apply(super.run, undefined, args);
    }
}
"#,
        r#"
class Child extends Parent {
    run() {
        super.run(...args);
        Reflect.apply(super.run, other, args);
        Reflect.apply(super.run, undefined, args);
    }
}
"#,
    );
}

#[test]
fn reflect_apply_stays_next_to_a_direct_eval_of_the_module() {
    let input = "eval(code); Reflect.apply(fn, undefined, args);";
    check_spread(input, input);
    check_spread(
        "eval(code); fn.apply(undefined, args);",
        "eval(code); fn(...args);",
    );
}

#[test]
fn eval_scopes_are_told_apart() {
    check_spread(
        r#"
class Holder {
    constructor() { eval(""); Reflect.apply(fn, undefined, args); }
    other() { Reflect.apply(fn, undefined, args); }
    static { eval(""); Reflect.apply(fn, undefined, args); }
}
const object = { get value() { eval(""); return Reflect.apply(fn, undefined, args); } };
"#,
        r#"
class Holder {
    constructor() { eval(""); Reflect.apply(fn, undefined, args); }
    other() { fn(...args); }
    static { eval(""); Reflect.apply(fn, undefined, args); }
}
const object = { get value() { eval(""); return Reflect.apply(fn, undefined, args); } };
"#,
    );
}

#[test]
fn receivers_that_are_written_to_are_not_stable() {
    for write in [
        "object = other;",
        "object++;",
        "[object] = other;",
        "({ object } = other);",
        "({ key: object = 1, ...rest } = other);",
        "for (object of list) {}",
        "for (object in list) {}",
        "(object) = other;",
    ] {
        let input = format!("const object = {{}}; {write} Reflect.apply(object.m, object, args);");
        check_spread(&input, &input);
    }
    check_spread(
        "const { object, list: [first] } = source; Reflect.apply(object.m, object, args); Reflect.apply(first.m, first, args);",
        "const { object, list: [first] } = source; object.m(...args); first.m(...args);",
    );
}

// A method that is kept in a temporary before it is applied.

#[test]
fn joins_a_memoized_method_and_its_call() {
    check_spread(
        "function f() { var _m; _m = obj.method; _m.apply(obj, args); rest(); }",
        "function f() { obj.method(...args); rest(); }",
    );
    check_spread(
        "function f() { var _m, _o, x; _m = (_o = get()).method; _m.apply(_o, [a, ...b]); }",
        "function f() { var x; get().method(a, ...b); }",
    );
    check_spread(
        "{ let _m; _m = obj.method; _m.apply(obj, [a, , b]); }",
        "{ obj.method(a, void 0, b); }",
    );
    check_spread(
        "switch (x) { case 1: let _m; _m = obj.method; _m.apply(obj, args); }",
        "switch (x) { case 1: obj.method(...args); }",
    );
}

#[test]
fn keeps_a_memoized_method_that_is_used_elsewhere() {
    for input in [
        "{ var _m; _m = obj.method; _m.apply(obj, args); use(_m); }",
        "{ var _m; use(_m); _m = obj.method; _m.apply(obj, args); }",
        "{ var _m = 1; _m = obj.method; _m.apply(obj, args); }",
        "{ _m = obj.method; _m.apply(obj, args); }",
        "{ var _m; _m = obj.method; between(); _m.apply(obj, args); }",
        "{ var _m; _m = obj.method; _m.apply(other, args); }",
        "{ var _m; _m += obj.method; _m.apply(obj, args); }",
        "{ var _m; _m = method; _m.apply(obj, args); }",
        "{ var _m; _m = obj.method; _m.call(obj, args); }",
        "var _m; _m = obj.method; _m.apply(obj, args);",
    ] {
        check_spread(input, input);
    }
}

// Quotients that are infinite.

#[test]
fn recovers_infinity() {
    check_infinity(
        "a = 1 / 0; b = -1 / 0; c = f(1 / 0); d = 1 / 0 / (1 / 0);",
        "a = Infinity; b = -Infinity; c = f(Infinity); d = Infinity / (Infinity);",
    );
}

#[test]
fn keeps_other_quotients() {
    let input = "a = 1 / 1; b = 2 / 0; c = 0 / 0; d = -2 / 0; e = +1 / 0; f = 1 * 0; g = (1) / 0; h = 1 / x;";
    check_infinity(input, input);
}

#[test]
fn a_bound_name_keeps_the_quotients_of_its_scope() {
    for input in [
        "let Infinity = 1; a = 1 / 0;",
        "var { x: [Infinity] } = y; a = 1 / 0;",
        "var { Infinity = 2 } = y; a = 1 / 0;",
        "var [...Infinity] = y; a = 1 / 0;",
        "function Infinity() {} a = 1 / 0;",
        "class Infinity {} a = 1 / 0;",
        "import { Infinity } from \"x\"; a = 1 / 0;",
        "function f(Infinity) { return 1 / 0; }",
        "function f({ Infinity: [x = 1, Infinity] }) { return 1 / 0; }",
        "function f() { var Infinity; return 1 / 0; }",
        "g = (Infinity) => 1 / 0;",
        "g = function Infinity() { return 1 / 0; };",
        "g = class Infinity { x = 1 / 0; };",
        "{ let Infinity; a = 1 / 0; }",
        "{ function Infinity() {} a = 1 / 0; }",
        "try {} catch (Infinity) { a = 1 / 0; }",
        "function f() { eval(code); return 1 / 0; }",
        "function f() { with (scope) { return 1 / 0; } }",
        "g = () => eval(1 / 0);",
        "eval(code); a = 1 / 0;",
        "with (scope) { a = 1 / 0; }",
    ] {
        check_infinity(input, input);
    }
}

#[test]
fn a_bound_name_keeps_no_other_quotients() {
    check_infinity(
        "function f(Infinity) { return 1 / 0; } a = 1 / 0; { let Infinity; } { var y = 1 / 0; }",
        "function f(Infinity) { return 1 / 0; } a = Infinity; { let Infinity; } { var y = Infinity; }",
    );
    check_infinity(
        "function f() { eval(code); return 1 / 0; } function g(eval) { eval(code); return 1 / 0; }",
        "function f() { eval(code); return 1 / 0; } function g(eval) { eval(code); return Infinity; }",
    );
    check_infinity(
        "{ { var Infinity; } a = 1 / 0; }",
        "{ { var Infinity; } a = Infinity; }",
    );
}

#[test]
fn infinity_twice_is_infinity_once() {
    check(
        "f(1 / 0, -1 / 0); function g(Infinity) { return 1 / 0; }",
        "f(Infinity, -Infinity); function g(Infinity) { return 1 / 0; }",
        false,
        &|module, unresolved_mark| {
            let mut rule = UnInfinity::new(unresolved_mark);
            rule.visit_mut_module(module);
            rule.visit_mut_module(module);
        },
    );
}
