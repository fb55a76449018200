use vstd::prelude::*;
use crate::span::Span;

verus! {

// ---------------------------------------------------------------------------
// Signature tokens
// ---------------------------------------------------------------------------
/// The kind of a recognized state-affecting call: the built-in state,
/// effect, memoization, callback and ref primitives, or a user-defined hook
/// recognized by its naming convention.
#[derive(Debug, PartialEq, Eq)]
pub enum HookKind {
    State,
    Effect,
    Memo,
    Callback,
    Ref,
    /// A user-defined hook; carries the hook's name.
    Custom(String),
}

pub enum HookKindView {
    State,
    Effect,
    Memo,
    Callback,
    Ref,
    Custom(Seq<char>),
}

impl View for HookKind {
    type V = HookKindView;

    open spec fn view(&self) -> HookKindView {
        match self {
            HookKind::State => HookKindView::State,
            HookKind::Effect => HookKindView::Effect,
            HookKind::Memo => HookKindView::Memo,
            HookKind::Callback => HookKindView::Callback,
            HookKind::Ref => HookKindView::Ref,
            HookKind::Custom(name) => HookKindView::Custom(name@),
        }
    }
}

impl DeepView for HookKind {
    type V = HookKindView;

    open spec fn deep_view(&self) -> HookKindView {
        self.view()
    }
}

/// One token of a component's signature: the kind of a state-affecting call
/// site and, where one is present, its literal key argument.
#[derive(Debug, PartialEq, Eq)]
pub struct SigToken {
    pub kind: HookKind,
    pub key: Option<String>,
}

pub struct SigTokenView {
    pub kind: HookKindView,
    pub key: Option<Seq<char>>,
}

impl View for SigToken {
    type V = SigTokenView;

    open spec fn view(&self) -> SigTokenView {
        SigTokenView { kind: self.kind@, key: self.key.deep_view() }
    }
}

impl DeepView for SigToken {
    type V = SigTokenView;

    open spec fn deep_view(&self) -> SigTokenView {
        self.view()
    }
}

// ---------------------------------------------------------------------------
// Expressions and statements
// ---------------------------------------------------------------------------
/// An expression, reduced to the shapes the pass distinguishes. Everything
/// the pass does not read is `Other`.
#[derive(Debug, PartialEq, Eq)]
pub enum Expr {
    /// A call; the callee is kept as a plain name when the source names one.
    Call { span: Span, callee: String, args: Vec<Expr> },
    /// A string literal, usable as a key argument of a recognized call.
    StrLit { span: Span, value: String },
    /// A plain identifier.
    Ident { span: Span, name: String },
    /// A function expression or arrow function; its body is a new scope that
    /// the signature builder does not descend into.
    FnValue { span: Span, body: Vec<Stmt> },
    /// A UI-producing element literal.
    Element { span: Span },
    /// Any other expression.
    Other { span: Span },
}

/// A statement, reduced to the shapes the pass distinguishes.
#[derive(Debug, PartialEq, Eq)]
pub enum Stmt {
    /// An expression statement.
    Expr { span: Span, expr: Expr },
    /// A return statement.
    Return { span: Span, arg: Option<Expr> },
    /// A nested block.
    Block { span: Span, stmts: Vec<Stmt> },
    /// A local variable declaration with an optional initializer.
    VarDecl { span: Span, name: String, init: Option<Expr> },
    /// A nested function declaration; a new scope of its own.
    FnDecl { span: Span, name: String, body: Vec<Stmt> },
    /// Any other statement.
    Other { span: Span },
}

pub enum ExprView {
    Call { span: Span, callee: Seq<char>, args: Seq<ExprView> },
    StrLit { span: Span, value: Seq<char> },
    Ident { span: Span, name: Seq<char> },
    FnValue { span: Span, body: Seq<StmtView> },
    Element { span: Span },
    Other { span: Span },
}

pub enum StmtView {
    Expr { span: Span, expr: ExprView },
    Return { span: Span, arg: Option<ExprView> },
    Block { span: Span, stmts: Seq<StmtView> },
    VarDecl { span: Span, name: Seq<char>, init: Option<ExprView> },
    FnDecl { span: Span, name: Seq<char>, body: Seq<StmtView> },
    Other { span: Span },
}

pub open spec fn view_expr(e: Expr) -> ExprView
    decreases e,
{
    match e {
        Expr::Call { span, callee, args } => ExprView::Call {
            span,
            callee: callee@,
            args: view_exprs(args@),
        },
        Expr::StrLit { span, value } => ExprView::StrLit { span, value: value@ },
        Expr::Ident { span, name } => ExprView::Ident { span, name: name@ },
        Expr::FnValue { span, body } => ExprView::FnValue { span, body: view_stmts(body@) },
        Expr::Element { span } => ExprView::Element { span },
        Expr::Other { span } => ExprView::Other { span },
    }
}

pub open spec fn view_exprs(es: Seq<Expr>) -> Seq<ExprView>
    decreases es,
{
    if es.len() == 0 {
        Seq::empty()
    } else {
        view_exprs(es.drop_last()).push(view_expr(es.last()))
    }
}

pub open spec fn view_stmt(s: Stmt) -> StmtView
    decreases s,
{
    match s {
        Stmt::Expr { span, expr } => StmtView::Expr { span, expr: view_expr(expr) },
        Stmt::Return { span, arg } => StmtView::Return {
            span,
            arg: match arg {
                Some(e) => Some(view_expr(e)),
                None => None,
            },
        },
        Stmt::Block { span, stmts } => StmtView::Block { span, stmts: view_stmts(stmts@) },
        Stmt::VarDecl { span, name, init } => StmtView::VarDecl {
            span,
            name: name@,
            init: match init {
                Some(e) => Some(view_expr(e)),
                None => None,
            },
        },
        Stmt::FnDecl { span, name, body } => StmtView::FnDecl {
            span,
            name: name@,
            body: view_stmts(body@),
        },
        Stmt::Other { span } => StmtView::Other { span },
    }
}

pub open spec fn view_stmts(ss: Seq<Stmt>) -> Seq<StmtView>
    decreases ss,
{
    if ss.len() == 0 {
        Seq::empty()
    } else {
        view_stmts(ss.drop_last()).push(view_stmt(ss.last()))
    }
}

/// `view_exprs` maps `view_expr` over the sequence, pointwise.
pub broadcast proof fn lemma_view_exprs(es: Seq<Expr>)
    ensures
        #![trigger view_exprs(es)]
        view_exprs(es).len() == es.len(),
        forall|i: int| 0 <= i < es.len() ==> view_exprs(es)[i] == view_expr(es[i]),
    decreases es.len(),
{
    if es.len() > 0 {
        lemma_view_exprs(es.drop_last());
    }
}

/// `view_stmts` maps `view_stmt` over the sequence, pointwise.
pub broadcast proof fn lemma_view_stmts(ss: Seq<Stmt>)
    ensures
        #![trigger view_stmts(ss)]
        view_stmts(ss).len() == ss.len(),
        forall|i: int| 0 <= i < ss.len() ==> view_stmts(ss)[i] == view_stmt(ss[i]),
    decreases ss.len(),
{
    if ss.len() > 0 {
        lemma_view_stmts(ss.drop_last());
    }
}

impl View for Expr {
    type V = ExprView;

    open spec fn view(&self) -> ExprView {
        view_expr(*self)
    }
}

impl View for Stmt {
    type V = StmtView;

    open spec fn view(&self) -> StmtView {
        view_stmt(*self)
    }
}

// ---------------------------------------------------------------------------
// Top-level items and modules
// ---------------------------------------------------------------------------
/// A top-level item of a module, as a tagged variant of the declaration
/// shapes the classifier distinguishes, plus the two synthesized
/// registration calls the emitter inserts.
#[derive(Debug, PartialEq, Eq)]
pub enum Item {
    /// A declared function: `function Foo() { ... }`.
    FnDecl { span: Span, name: String, body: Vec<Stmt> },
    /// A variable binding whose value is a function expression or arrow.
    VarFn { span: Span, name: String, body: Vec<Stmt> },
    /// A variable binding whose value is not a function.
    VarOther { span: Span, name: String },
    /// A class declaration.
    ClassDecl { span: Span, name: String },
    /// A synthesized call registering a component's runtime identity, keyed
    /// by the per-file identifier plus the component's name.
    RegisterIdentity { file: String, name: String },
    /// A synthesized call recording a component's signature and reset flag.
    RegisterSignature { name: String, signature: Vec<SigToken>, reset: bool },
    /// Any other top-level code; the pass leaves it untouched.
    Other { span: Span },
}

pub enum ItemView {
    FnDecl { span: Span, name: Seq<char>, body: Seq<StmtView> },
    VarFn { span: Span, name: Seq<char>, body: Seq<StmtView> },
    VarOther { span: Span, name: Seq<char> },
    ClassDecl { span: Span, name: Seq<char> },
    RegisterIdentity { file: Seq<char>, name: Seq<char> },
    RegisterSignature { name: Seq<char>, signature: Seq<SigTokenView>, reset: bool },
    Other { span: Span },
}

impl View for Item {
    type V = ItemView;

    open spec fn view(&self) -> ItemView {
        match self {
            Item::FnDecl { span, name, body } => ItemView::FnDecl {
                span: *span,
                name: name@,
                body: view_stmts(body@),
            },
            Item::VarFn { span, name, body } => ItemView::VarFn {
                span: *span,
                name: name@,
                body: view_stmts(body@),
            },
            Item::VarOther { span, name } => ItemView::VarOther { span: *span, name: name@ },
            Item::ClassDecl { span, name } => ItemView::ClassDecl { span: *span, name: name@ },
            Item::RegisterIdentity { file, name } => ItemView::RegisterIdentity {
                file: file@,
                name: name@,
            },
            Item::RegisterSignature { name, signature, reset } => ItemView::RegisterSignature {
                name: name@,
                signature: signature.deep_view(),
                reset: *reset,
            },
            Item::Other { span } => ItemView::Other { span: *span },
        }
    }
}

impl DeepView for Item {
    type V = ItemView;

    open spec fn deep_view(&self) -> ItemView {
        self.view()
    }
}

/// A parsed module: the unit one invocation of the pass rewrites.
#[derive(Debug, PartialEq, Eq)]
pub struct Module {
    /// The span of the whole file.
    pub span: Span,
    /// The top-level items, in source order.
    pub items: Vec<Item>,
}

pub struct ModuleView {
    pub span: Span,
    pub items: Seq<ItemView>,
}

impl View for Module {
    type V = ModuleView;

    open spec fn view(&self) -> ModuleView {
        ModuleView { span: self.span, items: self.items.deep_view() }
    }
}

} // verus!
