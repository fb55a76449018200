use vstd::prelude::*;
use crate::ast::{
    lemma_view_exprs, lemma_view_stmts, view_expr, view_exprs, view_stmt, view_stmts, Expr,
    ExprView, HookKind, HookKindView, SigToken, SigTokenView, Stmt, StmtView,
};
use crate::text::{spec_starts_with, starts_with, str_eq};

verus! {

// ---------------------------------------------------------------------------
// Recognizing state-affecting callees
// ---------------------------------------------------------------------------
/// The user-defined hook naming convention: the name starts with `use`.
pub open spec fn starts_with_use(name: Seq<char>) -> bool {
    spec_starts_with(name, "use"@)
}

/// The kind of state-affecting call a callee name denotes, if any: the
/// built-in primitives by their exact names, then the `use` prefix
/// convention for user-defined hooks.
pub open spec fn classify_callee(name: Seq<char>) -> Option<HookKindView> {
    if name == "useState"@ {
        Some(HookKindView::State)
    } else if name == "useEffect"@ {
        Some(HookKindView::Effect)
    } else if name == "useMemo"@ {
        Some(HookKindView::Memo)
    } else if name == "useCallback"@ {
        Some(HookKindView::Callback)
    } else if name == "useRef"@ {
        Some(HookKindView::Ref)
    } else if starts_with_use(name) {
        Some(HookKindView::Custom(name))
    } else {
        None
    }
}

/// The hook kind for a callee name, exactly as `classify_callee` says.
pub fn callee_hook_kind(name: &str) -> (r: Option<HookKind>)
    ensures
        r.deep_view() == classify_callee(name@),
{
    if str_eq(name, "useState") {
        Some(HookKind::State)
    } else if str_eq(name, "useEffect") {
        Some(HookKind::Effect)
    } else if str_eq(name, "useMemo") {
        Some(HookKind::Memo)
    } else if str_eq(name, "useCallback") {
        Some(HookKind::Callback)
    } else if str_eq(name, "useRef") {
        Some(HookKind::Ref)
    } else if starts_with(name, "use") {
        Some(HookKind::Custom(name.to_owned()))
    } else {
        None
    }
}

// ---------------------------------------------------------------------------
// Key arguments
// ---------------------------------------------------------------------------
/// The literal key argument of a recognized call: the first argument that is
/// a string literal, if any.
pub open spec fn key_of_args(args: Seq<ExprView>) -> Option<Seq<char>>
    decreases args.len(),
{
    if args.len() == 0 {
        None
    } else {
        match args[0] {
            ExprView::StrLit { value, .. } => Some(value),
            _ => key_of_args(args.drop_first()),
        }
    }
}

/// The literal key argument of a call's arguments, exactly as `key_of_args`
/// says.
pub fn key_of_call_args(args: &Vec<Expr>) -> (r: Option<String>)
    ensures
        r.deep_view() == key_of_args(view_exprs(args@)),
{
    let ghost full = view_exprs(args@);
    proof {
        lemma_view_exprs(args@);
        assert(full.skip(0) =~= full);
    }
    let mut i: usize = 0;
    while i < args.len()
        invariant
            i <= args@.len(),
            full == view_exprs(args@),
            full.len() == args@.len(),
            forall|k: int| 0 <= k < args@.len() ==> full[k] == view_expr(args@[k]),
            key_of_args(full) == key_of_args(full.skip(i as int)),
        decreases args@.len() - i,
    {
        match &args[i] {
            Expr::StrLit { value, .. } => {
                proof {
                    assert(full.skip(i as int)[0] == full[i as int]);
                }
                return Some(value.clone());
            },
            _ => {
                proof {
                    assert(full.skip(i as int)[0] == full[i as int]);
                    assert(full.skip(i as int).drop_first() =~= full.skip(i + 1));
                }
            },
        }
        i += 1;
    }
    proof {
        assert(full.skip(args@.len() as int) =~= Seq::<ExprView>::empty());
    }
    None
}

// ---------------------------------------------------------------------------
// The signature itself
// ---------------------------------------------------------------------------
/// The token a single call site contributes: one token when the callee is a
/// recognized state-affecting primitive, nothing otherwise.
pub open spec fn token_of_call(callee: Seq<char>, args: Seq<ExprView>) -> Seq<SigTokenView> {
    match classify_callee(callee) {
        Some(kind) => seq![SigTokenView { kind, key: key_of_args(args) }],
        None => Seq::empty(),
    }
}

/// The signature tokens of one expression, in source order: a call
/// contributes its own token first, then the tokens of its arguments.
/// A function value opens a new scope of its own and is not descended into.
pub open spec fn sig_of_expr(e: ExprView) -> Seq<SigTokenView>
    decreases e,
{
    match e {
        ExprView::Call { callee, args, .. } => token_of_call(callee, args) + sig_of_exprs(args),
        _ => Seq::empty(),
    }
}

pub open spec fn sig_of_exprs(es: Seq<ExprView>) -> Seq<SigTokenView>
    decreases es,
{
    if es.len() == 0 {
        Seq::empty()
    } else {
        sig_of_exprs(es.drop_last()) + sig_of_expr(es.last())
    }
}

/// The signature tokens of one statement. Nested function declarations are
/// new scopes and contribute nothing.
pub open spec fn sig_of_stmt(s: StmtView) -> Seq<SigTokenView>
    decreases s,
{
    match s {
        StmtView::Expr { expr, .. } => sig_of_expr(expr),
        StmtView::Return { arg, .. } => match arg {
            Some(e) => sig_of_expr(e),
            None => Seq::empty(),
        },
        StmtView::Block { stmts, .. } => sig_of_stmts(stmts),
        StmtView::VarDecl { init, .. } => match init {
            Some(e) => sig_of_expr(e),
            None => Seq::empty(),
        },
        StmtView::FnDecl { .. } => Seq::empty(),
        StmtView::Other { .. } => Seq::empty(),
    }
}

/// The signature of a statement sequence: the tokens of each statement, in
/// source order.
pub open spec fn sig_of_stmts(ss: Seq<StmtView>) -> Seq<SigTokenView>
    decreases ss,
{
    if ss.len() == 0 {
        Seq::empty()
    } else {
        sig_of_stmts(ss.drop_last()) + sig_of_stmt(ss.last())
    }
}

#[verifier::loop_isolation(false)]
fn push_sig_expr(e: &Expr, out: &mut Vec<SigToken>)
    ensures
        final(out).deep_view() == old(out).deep_view() + sig_of_expr(view_expr(*e)),
    decreases *e,
{
    match e {
        Expr::Call { span: _, callee, args } => {
            match callee_hook_kind(callee.as_str()) {
                Some(kind) => {
                    let key = key_of_call_args(args);
                    let tok = SigToken { kind, key };
                    out.push(tok);
                    proof {
                        assert(out.deep_view() =~= old(out).deep_view() + token_of_call(
                            callee@,
                            view_exprs(args@),
                        ));
                    }
                },
                None => {
                    proof {
                        assert(out.deep_view() =~= old(out).deep_view() + token_of_call(
                            callee@,
                            view_exprs(args@),
                        ));
                    }
                },
            }
            let ghost base = out.deep_view();
            let ghost full = view_exprs(args@);
            proof {
                lemma_view_exprs(args@);
                assert(full.take(0) =~= Seq::<ExprView>::empty());
            }
            let mut i: usize = 0;
            while i < args.len()
                invariant
                    i <= args@.len(),
                    full == view_exprs(args@),
                    full.len() == args@.len(),
                    forall|k: int| 0 <= k < args@.len() ==> full[k] == view_expr(args@[k]),
                    out.deep_view() == base + sig_of_exprs(full.take(i as int)),
                decreases args@.len() - i,
            {
                push_sig_expr(&args[i], out);
                proof {
                    assert(full.take(i + 1).drop_last() =~= full.take(i as int));
                    assert(full.take(i + 1).last() == full[i as int]);
                    assert(out.deep_view() =~= base + sig_of_exprs(full.take(i + 1)));
                }
                i += 1;
            }
            proof {
                assert(full.take(args@.len() as int) =~= full);
                assert(out.deep_view() =~= old(out).deep_view() + sig_of_expr(view_expr(*e)));
            }
        },
        _ => {
            proof {
                assert(out.deep_view() =~= old(out).deep_view() + sig_of_expr(view_expr(*e)));
            }
        },
    }
}

#[verifier::loop_isolation(false)]
fn push_sig_stmt(s: &Stmt, out: &mut Vec<SigToken>)
    ensures
        final(out).deep_view() == old(out).deep_view() + sig_of_stmt(view_stmt(*s)),
    decreases *s,
{
    match s {
        Stmt::Expr { span: _, expr } => {
            push_sig_expr(expr, out);
        },
        Stmt::Return { span: _, arg } => {
            match arg {
                Some(e) => push_sig_expr(e, out),
                None => {
                    proof {
                        assert(out.deep_view() =~= old(out).deep_view() + sig_of_stmt(
                            view_stmt(*s),
                        ));
                    }
                },
            }
        },
        Stmt::VarDecl { span: _, name: _, init } => {
            match init {
                Some(e) => push_sig_expr(e, out),
                None => {
                    proof {
                        assert(out.deep_view() =~= old(out).deep_view() + sig_of_stmt(
                            view_stmt(*s),
                        ));
                    }
                },
            }
        },
        Stmt::Block { span: _, stmts } => {
            let ghost base = out.deep_view();
            let ghost full = view_stmts(stmts@);
            proof {
                lemma_view_stmts(stmts@);
                assert(full.take(0) =~= Seq::<StmtView>::empty());
            }
            let mut i: usize = 0;
            while i < stmts.len()
                invariant
                    i <= stmts@.len(),
                    full == view_stmts(stmts@),
                    full.len() == stmts@.len(),
                    forall|k: int| 0 <= k < stmts@.len() ==> full[k] == view_stmt(stmts@[k]),
                    out.deep_view() == base + sig_of_stmts(full.take(i as int)),
                decreases stmts@.len() - i,
            {
                push_sig_stmt(&stmts[i], out);
                proof {
                    assert(full.take(i + 1).drop_last() =~= full.take(i as int));
                    assert(full.take(i + 1).last() == full[i as int]);
                    assert(out.deep_view() =~= base + sig_of_stmts(full.take(i + 1)));
                }
                i += 1;
            }
            proof {
                assert(full.take(stmts@.len() as int) =~= full);
            }
        },
        _ => {
            proof {
                assert(out.deep_view() =~= old(out).deep_view() + sig_of_stmt(view_stmt(*s)));
            }
        },
    }
}

/// The Component Signature Builder: the ordered sequence of tokens, one per
/// recognized state-affecting call site of the body, in lexical source
/// order, exactly as `sig_of_stmts` says of the body's view. Calls the pass
/// cannot see through simply contribute no token: the builder never fails.
pub fn build_signature(body: &Vec<Stmt>) -> (r: Vec<SigToken>)
    ensures
        r.deep_view() == sig_of_stmts(view_stmts(body@)),
{
    let mut out: Vec<SigToken> = Vec::new();
    let ghost full = view_stmts(body@);
    proof {
        lemma_view_stmts(body@);
        assert(out.deep_view() =~= Seq::<SigTokenView>::empty());
        assert(full.take(0) =~= Seq::<StmtView>::empty());
    }
    let mut i: usize = 0;
    while i < body.len()
        invariant
            i <= body@.len(),
            full == view_stmts(body@),
            full.len() == body@.len(),
            forall|k: int| 0 <= k < body@.len() ==> full[k] == view_stmt(body@[k]),
            out.deep_view() == sig_of_stmts(full.take(i as int)),
        decreases body@.len() - i,
    {
        push_sig_stmt(&body[i], &mut out);
        proof {
            assert(full.take(i + 1).drop_last() =~= full.take(i as int));
            assert(full.take(i + 1).last() == full[i as int]);
            assert(out.deep_view() =~= sig_of_stmts(full.take(i + 1)));
        }
        i += 1;
    }
    proof {
        assert(full.take(body@.len() as int) =~= full);
    }
    out
}

// ---------------------------------------------------------------------------
// Laws
// ---------------------------------------------------------------------------
/// Signature generation is deterministic: equal bodies always yield equal
/// signatures, for `sig_of_stmts` is a function of the body alone.
pub proof fn lemma_signature_deterministic(b1: Seq<StmtView>, b2: Seq<StmtView>)
    requires
        b1 == b2,
    ensures
        sig_of_stmts(b1) == sig_of_stmts(b2),
{
}

/// Tokens come in lexical source order: every token of an earlier statement
/// precedes every token of a later one.
pub proof fn lemma_sig_source_order(a: Seq<StmtView>, b: Seq<StmtView>)
    ensures
        sig_of_stmts(a + b) == sig_of_stmts(a) + sig_of_stmts(b),
    decreases b.len(),
{
    if b.len() == 0 {
        assert(a + b =~= a);
        assert(sig_of_stmts(a) + sig_of_stmts(b) =~= sig_of_stmts(a));
    } else {
        lemma_sig_source_order(a, b.drop_last());
        assert((a + b).drop_last() =~= a + b.drop_last());
        assert((a + b).last() == b.last());
        assert(sig_of_stmts(a) + (sig_of_stmts(b.drop_last()) + sig_of_stmt(b.last())) =~= (
        sig_of_stmts(a) + sig_of_stmts(b.drop_last())) + sig_of_stmt(b.last()));
    }
}

/// The same order law for the arguments of one call: tokens of earlier
/// arguments precede tokens of later ones.
pub proof fn lemma_sig_args_source_order(a: Seq<ExprView>, b: Seq<ExprView>)
    ensures
        sig_of_exprs(a + b) == sig_of_exprs(a) + sig_of_exprs(b),
    decreases b.len(),
{
    if b.len() == 0 {
        assert(a + b =~= a);
        assert(sig_of_exprs(a) + sig_of_exprs(b) =~= sig_of_exprs(a));
    } else {
        lemma_sig_args_source_order(a, b.drop_last());
        assert((a + b).drop_last() =~= a + b.drop_last());
        assert((a + b).last() == b.last());
        assert(sig_of_exprs(a) + (sig_of_exprs(b.drop_last()) + sig_of_expr(b.last())) =~= (
        sig_of_exprs(a) + sig_of_exprs(b.drop_last())) + sig_of_expr(b.last()));
    }
}

} // verus!
