use prefresh::ast::{Expr, HookKind, SigToken, Stmt};
use prefresh::signature::{build_signature, callee_hook_kind, key_of_call_args};
use prefresh::span::Span;

fn sp(lo: u32, hi: u32) -> Span {
    Span { lo, hi }
}

fn call(lo: u32, callee: &str, args: Vec<Expr>) -> Expr {
    Expr::Call { span: sp(lo, lo + 10), callee: String::from(callee), args }
}

fn expr_stmt(lo: u32, expr: Expr) -> Stmt {
    Stmt::Expr { span: sp(lo, lo + 12), expr }
}

#[test]
fn builtin_primitives_are_recognized_by_exact_name() {
    assert_eq!(callee_hook_kind("useState"), Some(HookKind::State));
    assert_eq!(callee_hook_kind("useEffect"), Some(HookKind::Effect));
    assert_eq!(callee_hook_kind("useMemo"), Some(HookKind::Memo));
    assert_eq!(callee_hook_kind("useCallback"), Some(HookKind::Callback));
    assert_eq!(callee_hook_kind("useRef"), Some(HookKind::Ref));
}

#[test]
fn use_prefix_names_are_custom_hooks() {
    assert_eq!(
        callee_hook_kind("useCounter"),
        Some(HookKind::Custom(String::from("useCounter")))
    );
}

#[test]
fn other_callees_contribute_nothing() {
    assert_eq!(callee_hook_kind("render"), None);
    assert_eq!(callee_hook_kind("setTimeout"), None);
    assert_eq!(callee_hook_kind("Use"), None);
    assert_eq!(callee_hook_kind("us"), None);
}

#[test]
fn the_key_is_the_first_string_literal_argument() {
    let args = vec![
        Expr::Other { span: sp(5, 6) },
        Expr::StrLit { span: sp(7, 12), value: String::from("shared") },
        Expr::StrLit { span: sp(13, 18), value: String::from("later") },
    ];
    assert_eq!(key_of_call_args(&args), Some(String::from("shared")));
    let no_key = vec![Expr::Other { span: sp(5, 6) }];
    assert_eq!(key_of_call_args(&no_key), None);
    assert_eq!(key_of_call_args(&Vec::new()), None);
}

#[test]
fn tokens_come_in_lexical_source_order() {
    let body = vec![
        expr_stmt(10, call(10, "useState", vec![Expr::Other { span: sp(19, 20) }])),
        expr_stmt(30, call(30, "useEffect", vec![])),
        expr_stmt(50, call(50, "useCounter", vec![])),
    ];
    let sig = build_signature(&body);
    assert_eq!(
        sig,
        vec![
            SigToken { kind: HookKind::State, key: None },
            SigToken { kind: HookKind::Effect, key: None },
            SigToken { kind: HookKind::Custom(String::from("useCounter")), key: None },
        ]
    );
}

#[test]
fn signature_generation_is_deterministic() {
    let make_body = || {
        vec![
            expr_stmt(10, call(10, "useState", vec![])),
            Stmt::VarDecl {
                span: sp(30, 60),
                name: String::from("memo"),
                init: Some(call(40, "useMemo", vec![
                    Expr::StrLit { span: sp(45, 50), value: String::from("k") },
                ])),
            },
        ]
    };
    let first = build_signature(&make_body());
    let second = build_signature(&make_body());
    assert_eq!(first, second);
    assert_eq!(
        first,
        vec![
            SigToken { kind: HookKind::State, key: None },
            SigToken { kind: HookKind::Memo, key: Some(String::from("k")) },
        ]
    );
}

#[test]
fn calls_inside_returns_blocks_and_initializers_are_seen() {
    let body = vec![
        Stmt::Block {
            span: sp(10, 40),
            stmts: vec![expr_stmt(12, call(12, "useRef", vec![]))],
        },
        Stmt::Return { span: sp(50, 70), arg: Some(call(55, "useCallback", vec![])) },
    ];
    let sig = build_signature(&body);
    assert_eq!(
        sig,
        vec![
            SigToken { kind: HookKind::Ref, key: None },
            SigToken { kind: HookKind::Callback, key: None },
        ]
    );
}

#[test]
fn nested_function_bodies_are_not_traversed() {
    let inner = vec![expr_stmt(20, call(20, "useState", vec![]))];
    let body = vec![
        Stmt::FnDecl { span: sp(10, 40), name: String::from("helper"), body: inner },
        expr_stmt(50, Expr::FnValue {
            span: sp(50, 80),
            body: vec![expr_stmt(55, call(55, "useEffect", vec![]))],
        }),
    ];
    assert_eq!(build_signature(&body), Vec::new());
}

#[test]
fn a_call_token_precedes_the_tokens_of_its_arguments() {
    let body = vec![expr_stmt(
        10,
        call(10, "useMemo", vec![call(15, "useState", vec![])]),
    )];
    let sig = build_signature(&body);
    assert_eq!(
        sig,
        vec![
            SigToken { kind: HookKind::Memo, key: None },
            SigToken { kind: HookKind::State, key: None },
        ]
    );
}

#[test]
fn unanalyzable_pieces_degrade_to_a_shorter_signature() {
    // a dynamic call the pass cannot see through contributes nothing, the
    // rest of the body is still summarized
    let body = vec![
        expr_stmt(10, Expr::Other { span: sp(10, 20) }),
        expr_stmt(30, call(30, "useState", vec![])),
    ];
    assert_eq!(
        build_signature(&body),
        vec![SigToken { kind: HookKind::State, key: None }]
    );
}
