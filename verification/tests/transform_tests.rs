use prefresh::ast::{Expr, HookKind, Item, Module, SigToken, Stmt};
use prefresh::classify::{classify, Candidate, DeclKind};
use prefresh::comments::{Comment, CommentIndex};
use prefresh::span::Span;
use prefresh::transform::Prefresh;

fn sp(lo: u32, hi: u32) -> Span {
    Span { lo, hi }
}

fn empty_index() -> CommentIndex {
    CommentIndex { leading: Vec::new(), trailing: Vec::new() }
}

fn pass(comments: CommentIndex) -> Prefresh {
    Prefresh { comments, file: String::from("app.js") }
}

fn use_state_call(lo: u32) -> Expr {
    Expr::Call {
        span: sp(lo, lo + 11),
        callee: String::from("useState"),
        args: vec![Expr::Other { span: sp(lo + 9, lo + 10) }],
    }
}

#[test]
fn uppercase_function_declaration_is_a_candidate() {
    let item = Item::FnDecl { span: sp(1, 40), name: String::from("Foo"), body: Vec::new() };
    assert_eq!(
        classify(&item),
        Some(Candidate { name: String::from("Foo"), kind: DeclKind::Function })
    );
}

#[test]
fn uppercase_variable_function_is_a_candidate() {
    let item = Item::VarFn { span: sp(1, 40), name: String::from("App"), body: Vec::new() };
    assert_eq!(
        classify(&item),
        Some(Candidate { name: String::from("App"), kind: DeclKind::VariableFunction })
    );
}

#[test]
fn lowercase_function_returning_ui_is_a_lower_confidence_candidate() {
    let body = vec![Stmt::Return { span: sp(10, 30), arg: Some(Expr::Element { span: sp(17, 29) }) }];
    let item = Item::FnDecl { span: sp(1, 40), name: String::from("widget"), body };
    assert_eq!(
        classify(&item),
        Some(Candidate { name: String::from("widget"), kind: DeclKind::Function })
    );
}

#[test]
fn lowercase_function_without_ui_is_not_a_candidate() {
    let body = vec![Stmt::Return { span: sp(10, 30), arg: None }];
    let item = Item::FnDecl { span: sp(1, 40), name: String::from("helper"), body };
    assert_eq!(classify(&item), None);
}

#[test]
fn non_function_values_are_never_candidates() {
    assert_eq!(classify(&Item::VarOther { span: sp(1, 12), name: String::from("X") }), None);
    assert_eq!(classify(&Item::ClassDecl { span: sp(1, 30), name: String::from("Store") }), None);
    assert_eq!(classify(&Item::Other { span: sp(1, 9) }), None);
}

#[test]
fn scenario_component_with_state_gets_two_registrations() {
    // function Foo() { useState(0); return null; }
    let body = vec![
        Stmt::Expr { span: sp(18, 30), expr: use_state_call(18) },
        Stmt::Return { span: sp(32, 44), arg: Some(Expr::Other { span: sp(39, 43) }) },
    ];
    let decl = Item::FnDecl { span: sp(1, 45), name: String::from("Foo"), body };
    let module = Module { span: sp(1, 46), items: vec![clone_item(&decl)] };
    let out = pass(empty_index()).transform(module);
    assert_eq!(out.items.len(), 3);
    assert_eq!(out.items[0], decl);
    assert_eq!(
        out.items[1],
        Item::RegisterIdentity { file: String::from("app.js"), name: String::from("Foo") }
    );
    assert_eq!(
        out.items[2],
        Item::RegisterSignature {
            name: String::from("Foo"),
            signature: vec![SigToken { kind: HookKind::State, key: None }],
            reset: false,
        }
    );
}

#[test]
fn scenario_reset_pragma_sets_the_flag_of_the_registration() {
    // /* @refresh reset */ function Bar() { return null; }
    let decl = Item::FnDecl {
        span: sp(22, 53),
        name: String::from("Bar"),
        body: vec![Stmt::Return { span: sp(38, 50), arg: Some(Expr::Other { span: sp(45, 49) }) }],
    };
    let idx = CommentIndex {
        leading: vec![Comment { pos: 22, text: String::from(" @refresh reset ") }],
        trailing: Vec::new(),
    };
    let module = Module { span: sp(1, 54), items: vec![decl] };
    let out = pass(idx).transform(module);
    assert_eq!(out.items.len(), 3);
    match &out.items[2] {
        Item::RegisterSignature { name, reset, .. } => {
            assert_eq!(name, "Bar");
            assert!(*reset);
        },
        other => panic!("expected a signature registration, got {:?}", other),
    }
}

#[test]
fn scenario_plain_value_passes_through_unchanged() {
    // const x = 5;
    let decl = Item::VarOther { span: sp(1, 13), name: String::from("x") };
    let module = Module { span: sp(1, 14), items: vec![clone_item(&decl)] };
    let out = pass(empty_index()).transform(module);
    assert_eq!(out.items, vec![decl]);
    assert_eq!(out.span, sp(1, 14));
}

#[test]
fn module_level_pragma_is_inherited_by_every_component() {
    // the module's own span carries the pragma; the component has no comment
    let decl = Item::FnDecl { span: sp(25, 60), name: String::from("Foo"), body: Vec::new() };
    let idx = CommentIndex {
        leading: vec![Comment { pos: 1, text: String::from("@refresh reset") }],
        trailing: Vec::new(),
    };
    let module = Module { span: sp(1, 61), items: vec![decl] };
    let out = pass(idx).transform(module);
    match &out.items[2] {
        Item::RegisterSignature { reset, .. } => assert!(*reset),
        other => panic!("expected a signature registration, got {:?}", other),
    }
}

#[test]
fn transform_is_idempotent_on_its_own_output() {
    let body = vec![Stmt::Expr { span: sp(18, 30), expr: use_state_call(18) }];
    let module = Module {
        span: sp(1, 80),
        items: vec![
            Item::FnDecl { span: sp(1, 45), name: String::from("Foo"), body },
            Item::VarOther { span: sp(47, 60), name: String::from("x") },
            Item::VarFn { span: sp(62, 79), name: String::from("Bar"), body: Vec::new() },
        ],
    };
    let first = pass(empty_index()).transform(module);
    let again = Module { span: first.span, items: rebuild_items(&first.items) };
    let second = pass(empty_index()).transform(again);
    assert_eq!(second, first);
}

#[test]
fn existing_registrations_are_detected_and_skipped() {
    let module = Module {
        span: sp(1, 80),
        items: vec![
            Item::FnDecl { span: sp(1, 45), name: String::from("Foo"), body: Vec::new() },
            Item::RegisterIdentity { file: String::from("app.js"), name: String::from("Foo") },
            Item::RegisterSignature {
                name: String::from("Foo"),
                signature: Vec::new(),
                reset: false,
            },
        ],
    };
    let expected = rebuild_items(&module.items);
    let out = pass(empty_index()).transform(module);
    assert_eq!(out.items, expected);
}

#[test]
fn siblings_are_isolated_from_each_other() {
    // a non-candidate between two candidates neither blocks nor gains anything
    let module = Module {
        span: sp(1, 120),
        items: vec![
            Item::FnDecl { span: sp(1, 30), name: String::from("One"), body: Vec::new() },
            Item::Other { span: sp(32, 50) },
            Item::VarFn { span: sp(52, 90), name: String::from("Two"), body: Vec::new() },
        ],
    };
    let out = pass(empty_index()).transform(module);
    let names: Vec<&str> = out
        .items
        .iter()
        .filter_map(|it| match it {
            Item::RegisterIdentity { name, .. } => Some(name.as_str()),
            _ => None,
        })
        .collect();
    assert_eq!(names, vec!["One", "Two"]);
    assert_eq!(out.items.len(), 7);
    assert!(matches!(out.items[3], Item::Other { .. }));
}

// Items are rebuilt by hand where a test needs a second copy: the library's
// AST types deliberately do not implement Clone.
fn rebuild_items(items: &[Item]) -> Vec<Item> {
    items
        .iter()
        .map(|it| match it {
            Item::FnDecl { span, name, body } => Item::FnDecl {
                span: *span,
                name: name.clone(),
                body: rebuild_stmts(body),
            },
            Item::VarFn { span, name, body } => Item::VarFn {
                span: *span,
                name: name.clone(),
                body: rebuild_stmts(body),
            },
            Item::VarOther { span, name } => Item::VarOther { span: *span, name: name.clone() },
            Item::ClassDecl { span, name } => Item::ClassDecl { span: *span, name: name.clone() },
            Item::RegisterIdentity { file, name } => Item::RegisterIdentity {
                file: file.clone(),
                name: name.clone(),
            },
            Item::RegisterSignature { name, signature, reset } => Item::RegisterSignature {
                name: name.clone(),
                signature: signature
                    .iter()
                    .map(|t| SigToken { kind: rebuild_kind(&t.kind), key: t.key.clone() })
                    .collect(),
                reset: *reset,
            },
            Item::Other { span } => Item::Other { span: *span },
        })
        .collect()
}

fn rebuild_kind(kind: &HookKind) -> HookKind {
    match kind {
        HookKind::State => HookKind::State,
        HookKind::Effect => HookKind::Effect,
        HookKind::Memo => HookKind::Memo,
        HookKind::Callback => HookKind::Callback,
        HookKind::Ref => HookKind::Ref,
        HookKind::Custom(name) => HookKind::Custom(name.clone()),
    }
}

fn rebuild_stmts(stmts: &[Stmt]) -> Vec<Stmt> {
    stmts
        .iter()
        .map(|s| match s {
            Stmt::Expr { span, expr } => Stmt::Expr { span: *span, expr: rebuild_expr(expr) },
            Stmt::Return { span, arg } => Stmt::Return {
                span: *span,
                arg: arg.as_ref().map(rebuild_expr),
            },
            Stmt::Block { span, stmts } => Stmt::Block { span: *span, stmts: rebuild_stmts(stmts) },
            Stmt::VarDecl { span, name, init } => Stmt::VarDecl {
                span: *span,
                name: name.clone(),
                init: init.as_ref().map(rebuild_expr),
            },
            Stmt::FnDecl { span, name, body } => Stmt::FnDecl {
                span: *span,
                name: name.clone(),
                body: rebuild_stmts(body),
            },
            Stmt::Other { span } => Stmt::Other { span: *span },
        })
        .collect()
}

fn rebuild_expr(e: &Expr) -> Expr {
    match e {
        Expr::Call { span, callee, args } => Expr::Call {
            span: *span,
            callee: callee.clone(),
            args: args.iter().map(rebuild_expr).collect(),
        },
        Expr::StrLit { span, value } => Expr::StrLit { span: *span, value: value.clone() },
        Expr::Ident { span, name } => Expr::Ident { span: *span, name: name.clone() },
        Expr::FnValue { span, body } => Expr::FnValue { span: *span, body: rebuild_stmts(body) },
        Expr::Element { span } => Expr::Element { span: *span },
        Expr::Other { span } => Expr::Other { span: *span },
    }
}

fn clone_item(it: &Item) -> Item {
    rebuild_items(std::slice::from_ref(it)).pop().unwrap()
}
