use vstd::prelude::*;
use crate::ast::{
    lemma_view_stmts, view_stmt, view_stmts, Expr, Item, ItemView, Stmt, StmtView,
};

verus! {

/// The declaration shapes the classifier dispatches on.
#[derive(Clone, Copy, Debug, PartialEq, Eq, Structural)]
pub enum DeclKind {
    Function,
    VariableFunction,
    Class,
    Other,
}

/// A component candidate: a top-level binding that qualifies for refresh
/// registration. Exists only during one pass; never persisted.
#[derive(Debug, PartialEq, Eq)]
pub struct Candidate {
    /// The binding's name.
    pub name: String,
    /// The shape of the declaration the candidate came from.
    pub kind: DeclKind,
}

pub struct CandidateView {
    pub name: Seq<char>,
    pub kind: DeclKind,
}

impl View for Candidate {
    type V = CandidateView;

    open spec fn view(&self) -> CandidateView {
        CandidateView { name: self.name@, kind: self.kind }
    }
}

impl DeepView for Candidate {
    type V = CandidateView;

    open spec fn deep_view(&self) -> CandidateView {
        self.view()
    }
}

/// The component naming convention: the name's first character is an
/// uppercase ASCII letter.
pub open spec fn is_uppercase_led(name: Seq<char>) -> bool {
    name.len() > 0 && 'A' as u32 <= name[0] as u32 && name[0] as u32 <= 'Z' as u32
}

/// `r` is true exactly when `name` is uppercase-led.
pub fn name_is_uppercase_led(name: &str) -> (r: bool)
    ensures
        r == is_uppercase_led(name@),
{
    let n = name.unicode_len();
    if n == 0 {
        return false;
    }
    let u = name.get_char(0) as u32;
    ('A' as u32) <= u && u <= ('Z' as u32)
}

/// The body shape heuristic: the statement returns a UI-producing element,
/// directly or inside a nested block. Nested function bodies are scopes of
/// their own and are not inspected.
pub open spec fn stmt_returns_ui(s: StmtView) -> bool
    decreases s,
{
    match s {
        StmtView::Return { arg, .. } => match arg {
            Some(e) => e is Element,
            None => false,
        },
        StmtView::Block { stmts, .. } => stmts_return_ui(stmts),
        _ => false,
    }
}

pub open spec fn stmts_return_ui(ss: Seq<StmtView>) -> bool
    decreases ss,
{
    if ss.len() == 0 {
        false
    } else {
        stmts_return_ui(ss.drop_last()) || stmt_returns_ui(ss.last())
    }
}

/// A statement sequence returns UI as soon as any one statement does.
proof fn lemma_stmts_return_ui_index(ss: Seq<StmtView>, i: int)
    requires
        0 <= i < ss.len(),
        stmt_returns_ui(ss[i]),
    ensures
        stmts_return_ui(ss),
    decreases ss.len(),
{
    if i == ss.len() - 1 {
        assert(ss.last() == ss[i]);
    } else {
        lemma_stmts_return_ui_index(ss.drop_last(), i);
    }
}

#[verifier::loop_isolation(false)]
fn stmt_returns_ui_exec(s: &Stmt) -> (r: bool)
    ensures
        r == stmt_returns_ui(view_stmt(*s)),
    decreases *s,
{
    match s {
        Stmt::Return { span: _, arg } => {
            match arg {
                Some(e) => match e {
                    Expr::Element { .. } => true,
                    _ => false,
                },
                None => false,
            }
        },
        Stmt::Block { span: _, stmts } => {
            let ghost full = view_stmts(stmts@);
            proof {
                lemma_view_stmts(stmts@);
            }
            let mut i: usize = 0;
            while i < stmts.len()
                invariant
                    i <= stmts@.len(),
                    !stmts_return_ui(full.take(i as int)),
                decreases stmts@.len() - i,
            {
                if stmt_returns_ui_exec(&stmts[i]) {
                    proof {
                        lemma_stmts_return_ui_index(full, i as int);
                    }
                    return true;
                }
                proof {
                    assert(full.take(i + 1).drop_last() =~= full.take(i as int));
                    assert(full.take(i + 1).last() == full[i as int]);
                }
                i += 1;
            }
            proof {
                assert(full.take(stmts@.len() as int) =~= full);
            }
            false
        },
        _ => false,
    }
}

/// `r` is true exactly when the body's shape structurally looks like a
/// component: some statement returns a UI-producing element.
pub fn body_returns_ui(body: &Vec<Stmt>) -> (r: bool)
    ensures
        r == stmts_return_ui(view_stmts(body@)),
{
    let ghost full = view_stmts(body@);
    proof {
        lemma_view_stmts(body@);
        assert(full.take(0) =~= Seq::<StmtView>::empty());
    }
    let mut i: usize = 0;
    while i < body.len()
        invariant
            i <= body@.len(),
            full == view_stmts(body@),
            full.len() == body@.len(),
            forall|k: int| 0 <= k < body@.len() ==> full[k] == view_stmt(body@[k]),
            !stmts_return_ui(full.take(i as int)),
        decreases body@.len() - i,
    {
        if stmt_returns_ui_exec(&body[i]) {
            proof {
                lemma_stmts_return_ui_index(full, i as int);
            }
            return true;
        }
        proof {
            assert(full.take(i + 1).drop_last() =~= full.take(i as int));
            assert(full.take(i + 1).last() == full[i as int]);
        }
        i += 1;
    }
    proof {
        assert(full.take(body@.len() as int) =~= full);
    }
    false
}

/// The heuristic rules, first match wins: an uppercase-led name bound to a
/// function is a candidate; a function whose body returns UI-producing
/// expressions is a candidate by the lower-confidence path; anything else is
/// not a component.
pub open spec fn candidate_rule(name: Seq<char>, body: Seq<StmtView>, kind: DeclKind) -> Option<
    CandidateView,
> {
    if is_uppercase_led(name) {
        Some(CandidateView { name, kind })
    } else if stmts_return_ui(body) {
        Some(CandidateView { name, kind })
    } else {
        None
    }
}

/// What the Component Classifier decides for a top-level item: only a
/// declaration whose value is a function can be a candidate.
pub open spec fn classify_spec(item: ItemView) -> Option<CandidateView> {
    match item {
        ItemView::FnDecl { name, body, .. } => candidate_rule(name, body, DeclKind::Function),
        ItemView::VarFn { name, body, .. } => candidate_rule(
            name,
            body,
            DeclKind::VariableFunction,
        ),
        _ => None,
    }
}

/// The binding name a declaration introduces; empty for items that bind
/// nothing.
pub open spec fn decl_name(item: ItemView) -> Seq<char> {
    match item {
        ItemView::FnDecl { name, .. } => name,
        ItemView::VarFn { name, .. } => name,
        ItemView::VarOther { name, .. } => name,
        ItemView::ClassDecl { name, .. } => name,
        ItemView::RegisterIdentity { name, .. } => name,
        ItemView::RegisterSignature { name, .. } => name,
        ItemView::Other { .. } => Seq::empty(),
    }
}

fn classify_decl(name: &String, body: &Vec<Stmt>, kind: DeclKind) -> (r: Option<Candidate>)
    ensures
        r.deep_view() == candidate_rule(name@, view_stmts(body@), kind),
{
    if name_is_uppercase_led(name.as_str()) {
        Some(Candidate { name: name.clone(), kind })
    } else if body_returns_ui(body) {
        Some(Candidate { name: name.clone(), kind })
    } else {
        None
    }
}

/// The Component Classifier: a pure, side-effect-free decision on one
/// top-level item, exactly as `classify_spec` says.
pub fn classify(item: &Item) -> (r: Option<Candidate>)
    ensures
        r.deep_view() == classify_spec(item@),
{
    match item {
        Item::FnDecl { span: _, name, body } => classify_decl(name, body, DeclKind::Function),
        Item::VarFn { span: _, name, body } => classify_decl(
            name,
            body,
            DeclKind::VariableFunction,
        ),
        _ => None,
    }
}

/// A declaration with an uppercase-led name bound to a function is always
/// classified as a candidate, under that name.
pub proof fn lemma_uppercase_function_is_candidate(item: ItemView)
    requires
        item is FnDecl || item is VarFn,
        is_uppercase_led(decl_name(item)),
    ensures
        classify_spec(item) matches Some(c) && c.name == decl_name(item),
{
}

/// A declaration not bound to a function is never classified as a candidate.
pub proof fn lemma_non_function_never_candidate(item: ItemView)
    requires
        !(item is FnDecl),
        !(item is VarFn),
    ensures
        classify_spec(item) is None,
{
}

} // verus!
