use vstd::prelude::*;
use crate::ast::{Item, ItemView, Module, ModuleView, SigToken, StmtView};
use crate::classify::{classify, classify_spec};
use crate::comments::CommentIndex;
use crate::reset::{compute_reset, span_marked};
use crate::signature::{build_signature, sig_of_stmts};
use crate::span::Span;

verus! {

// ---------------------------------------------------------------------------
// Registration bookkeeping
// ---------------------------------------------------------------------------
/// `n` is one of the names in `names`.
pub open spec fn name_in(names: Seq<Seq<char>>, n: Seq<char>) -> bool {
    exists|k: int| 0 <= k < names.len() && names[k] == n
}

/// The name a signature registration call registers; nothing for any other
/// item.
pub open spec fn reg_name_of(item: ItemView) -> Seq<Seq<char>> {
    match item {
        ItemView::RegisterSignature { name, .. } => seq![name],
        _ => Seq::empty(),
    }
}

/// The names for which a signature registration call is already present, in
/// order. Existing registrations are what makes a second run of the pass
/// skip re-insertion.
pub open spec fn registered_names(items: Seq<ItemView>) -> Seq<Seq<char>>
    decreases items.len(),
{
    if items.len() == 0 {
        Seq::empty()
    } else {
        reg_name_of(items[0]) + registered_names(items.drop_first())
    }
}

// ---------------------------------------------------------------------------
// What one item contributes
// ---------------------------------------------------------------------------
/// The source span of an item; synthesized registration calls carry the
/// dummy span.
pub open spec fn item_span(item: ItemView) -> Span {
    match item {
        ItemView::FnDecl { span, .. } => span,
        ItemView::VarFn { span, .. } => span,
        ItemView::VarOther { span, .. } => span,
        ItemView::ClassDecl { span, .. } => span,
        ItemView::RegisterIdentity { .. } => Span { lo: 0, hi: 0 },
        ItemView::RegisterSignature { .. } => Span { lo: 0, hi: 0 },
        ItemView::Other { span } => span,
    }
}

/// The function body of a declaration; empty for items that bind none.
pub open spec fn item_body(item: ItemView) -> Seq<StmtView> {
    match item {
        ItemView::FnDecl { body, .. } => body,
        ItemView::VarFn { body, .. } => body,
        _ => Seq::empty(),
    }
}

/// The registration calls the emitter inserts immediately after one item:
/// for a candidate not yet registered, the identity registration keyed by
/// the per-file identifier plus the component's name, then the call carrying
/// the component's signature and reset flag; nothing otherwise.
pub open spec fn emitted_for(
    item: ItemView,
    idx: CommentIndex,
    file: Seq<char>,
    module_flag: bool,
    already: Seq<Seq<char>>,
) -> Seq<ItemView> {
    match classify_spec(item) {
        Some(c) => if name_in(already, c.name) {
            Seq::empty()
        } else {
            seq![
                ItemView::RegisterIdentity { file, name: c.name },
                ItemView::RegisterSignature {
                    name: c.name,
                    signature: sig_of_stmts(item_body(item)),
                    reset: module_flag || span_marked(idx, item_span(item)),
                },
            ]
        },
        None => Seq::empty(),
    }
}

/// The names known to be registered after the emitter has handled one item.
pub open spec fn names_after(item: ItemView, already: Seq<Seq<char>>) -> Seq<Seq<char>> {
    match classify_spec(item) {
        Some(c) => already.push(c.name),
        None => already,
    }
}

// ---------------------------------------------------------------------------
// The transform
// ---------------------------------------------------------------------------
/// One forward pass over the items: every item is kept, unchanged and in
/// order, and each candidate is followed by its registration calls. No
/// backtracking; a decision on one item never affects its siblings.
pub open spec fn transform_items(
    items: Seq<ItemView>,
    idx: CommentIndex,
    file: Seq<char>,
    module_flag: bool,
    already: Seq<Seq<char>>,
) -> Seq<ItemView>
    decreases items.len(),
{
    if items.len() == 0 {
        Seq::empty()
    } else {
        seq![items[0]] + emitted_for(items[0], idx, file, module_flag, already)
            + transform_items(
            items.drop_first(),
            idx,
            file,
            module_flag,
            names_after(items[0], already),
        )
    }
}

/// The whole pass over one module: the reset flag of the module's own span
/// is inherited by every top-level declaration, and the registrations that
/// are already present are never inserted twice.
pub open spec fn transform_spec(m: ModuleView, idx: CommentIndex, file: Seq<char>) -> ModuleView {
    ModuleView {
        span: m.span,
        items: transform_items(
            m.items,
            idx,
            file,
            span_marked(idx, m.span),
            registered_names(m.items),
        ),
    }
}

// ---------------------------------------------------------------------------
// Executable pass
// ---------------------------------------------------------------------------
fn item_span_of(it: &Item) -> (r: Span)
    ensures
        r == item_span(it@),
{
    match it {
        Item::FnDecl { span, .. } => *span,
        Item::VarFn { span, .. } => *span,
        Item::VarOther { span, .. } => *span,
        Item::ClassDecl { span, .. } => *span,
        Item::RegisterIdentity { .. } => Span { lo: 0, hi: 0 },
        Item::RegisterSignature { .. } => Span { lo: 0, hi: 0 },
        Item::Other { span } => *span,
    }
}

fn item_signature(it: &Item) -> (r: Vec<SigToken>)
    ensures
        r.deep_view() == sig_of_stmts(item_body(it@)),
{
    match it {
        Item::FnDecl { span: _, name: _, body } => build_signature(body),
        Item::VarFn { span: _, name: _, body } => build_signature(body),
        _ => {
            let r: Vec<SigToken> = Vec::new();
            proof {
                assert(r.deep_view() =~= sig_of_stmts(item_body(it@)));
            }
            r
        },
    }
}

fn contains_name(names: &Vec<String>, n: &String) -> (r: bool)
    ensures
        r == name_in(names.deep_view(), n@),
{
    let mut i: usize = 0;
    while i < names.len()
        invariant
            i <= names@.len(),
            forall|k: int| 0 <= k < i ==> names.deep_view()[k] != n@,
        decreases names@.len() - i,
    {
        if names[i].eq(n) {
            proof {
                assert(names.deep_view()[i as int] == n@);
            }
            return true;
        }
        i += 1;
    }
    false
}

fn collect_registered(items: &Vec<Item>) -> (r: Vec<String>)
    ensures
        r.deep_view() == registered_names(items.deep_view()),
{
    let ghost full = items.deep_view();
    let mut r: Vec<String> = Vec::new();
    let mut i: usize = 0;
    proof {
        assert(full.skip(0) =~= full);
        assert(r.deep_view() =~= Seq::<Seq<char>>::empty());
    }
    while i < items.len()
        invariant
            i <= items@.len(),
            full == items.deep_view(),
            full.len() == items@.len(),
            registered_names(full) == r.deep_view() + registered_names(full.skip(i as int)),
        decreases items@.len() - i,
    {
        let ghost pre = r.deep_view();
        match &items[i] {
            Item::RegisterSignature { name, .. } => {
                r.push(name.clone());
            },
            _ => {},
        }
        proof {
            assert(full.skip(i as int)[0] == full[i as int]);
            assert(full.skip(i as int).drop_first() =~= full.skip(i + 1));
            assert(r.deep_view() =~= pre + reg_name_of(full[i as int]));
            assert(registered_names(full) == r.deep_view() + registered_names(full.skip(i + 1)));
        }
        i += 1;
    }
    proof {
        assert(full.skip(items@.len() as int) =~= Seq::<ItemView>::empty());
        assert(r.deep_view() =~= r.deep_view() + registered_names(full.skip(items@.len() as int)));
    }
    r
}

/// One invocation of the pass over one file: the comment index the host
/// built for the file, and the per-file identifier that namespaces
/// registration identities. All state is scoped to the invocation.
pub struct Prefresh {
    /// The file's comment index.
    pub comments: CommentIndex,
    /// The stable per-file identifier.
    pub file: String,
}

impl Prefresh {
    /// The Transform Orchestrator: one forward traversal that classifies
    /// each top-level item, computes its reset flag and signature, and
    /// inserts the registration calls, exactly as `transform_spec` says.
    /// Non-candidate items pass through unmodified.
    pub fn transform(&self, m: Module) -> (r: Module)
        ensures
            r@ == transform_spec(m@, self.comments, self.file@),
    {
        let ghost mv = m@;
        let Module { span, items } = m;
        let mut items = items;
        let ghost orig = mv.items;
        let ghost idx = self.comments;
        let ghost file_id = self.file@;
        let ghost mflag = span_marked(idx, mv.span);
        let module_flag = compute_reset(&self.comments, false, &span);
        let mut registered = collect_registered(&items);
        let mut out: Vec<Item> = Vec::new();
        proof {
            assert(out.deep_view() =~= Seq::<ItemView>::empty());
        }
        while items.len() > 0
            invariant
                idx == self.comments,
                file_id == self.file@,
                module_flag == mflag,
                transform_items(orig, idx, file_id, mflag, registered_names(orig))
                    == out.deep_view() + transform_items(
                    items.deep_view(),
                    idx,
                    file_id,
                    mflag,
                    registered.deep_view(),
                ),
            decreases items.len(),
        {
            let ghost pre_items = items.deep_view();
            let ghost cur = registered.deep_view();
            let ghost pre_out = out.deep_view();
            let it = items.remove(0);
            proof {
                assert(it@ == pre_items[0]);
                assert(items.deep_view() =~= pre_items.drop_first());
            }
            let cand = classify(&it);
            match cand {
                Some(c) => {
                    let it_span = item_span_of(&it);
                    let flag = compute_reset(&self.comments, module_flag, &it_span);
                    let sig = item_signature(&it);
                    let fresh = !contains_name(&registered, &c.name);
                    out.push(it);
                    if fresh {
                        out.push(
                            Item::RegisterIdentity { file: self.file.clone(), name: c.name.clone() },
                        );
                        out.push(
                            Item::RegisterSignature { name: c.name.clone(), signature: sig, reset: flag },
                        );
                    }
                    let ghost cv = classify_spec(pre_items[0])->Some_0;
                    proof {
                        assert(c@ == cv);
                        assert(registered.deep_view().push(c.name@) =~= names_after(
                            pre_items[0],
                            cur,
                        ));
                    }
                    registered.push(c.name);
                    proof {
                        assert(registered.deep_view() =~= names_after(pre_items[0], cur));
                        assert(out.deep_view() =~= pre_out + seq![pre_items[0]] + emitted_for(
                            pre_items[0],
                            idx,
                            file_id,
                            mflag,
                            cur,
                        ));
                    }
                },
                None => {
                    out.push(it);
                    proof {
                        assert(out.deep_view() =~= pre_out + seq![pre_items[0]] + emitted_for(
                            pre_items[0],
                            idx,
                            file_id,
                            mflag,
                            cur,
                        ));
                        assert(registered.deep_view() =~= names_after(pre_items[0], cur));
                    }
                },
            }
            proof {
                assert(pre_out + seq![pre_items[0]] + emitted_for(pre_items[0], idx, file_id, mflag, cur)
                    + transform_items(
                    pre_items.drop_first(),
                    idx,
                    file_id,
                    mflag,
                    names_after(pre_items[0], cur),
                ) =~= pre_out + (seq![pre_items[0]] + emitted_for(
                    pre_items[0],
                    idx,
                    file_id,
                    mflag,
                    cur,
                ) + transform_items(
                    pre_items.drop_first(),
                    idx,
                    file_id,
                    mflag,
                    names_after(pre_items[0], cur),
                )));
            }
        }
        proof {
            assert(items.deep_view() =~= Seq::<ItemView>::empty());
            assert(out.deep_view() + transform_items(
                items.deep_view(),
                idx,
                file_id,
                mflag,
                registered.deep_view(),
            ) =~= out.deep_view());
        }
        let r = Module { span, items: out };
        proof {
            assert(r@.items =~= transform_spec(mv, idx, file_id).items);
        }
        r
    }
}

// ---------------------------------------------------------------------------
// Laws
// ---------------------------------------------------------------------------
/// `item` is a candidate whose binding name is `n`.
pub open spec fn candidate_name_is(item: ItemView, n: Seq<char>) -> bool {
    match classify_spec(item) {
        Some(c) => c.name == n,
        None => false,
    }
}

/// Some item of `items` is a candidate named `n`.
pub open spec fn has_candidate_named(items: Seq<ItemView>, n: Seq<char>) -> bool
    decreases items.len(),
{
    if items.len() == 0 {
        false
    } else {
        candidate_name_is(items[0], n) || has_candidate_named(items.drop_first(), n)
    }
}

proof fn lemma_name_in_concat(a: Seq<Seq<char>>, b: Seq<Seq<char>>, n: Seq<char>)
    ensures
        name_in(a + b, n) == (name_in(a, n) || name_in(b, n)),
{
    if name_in(a + b, n) {
        let k = choose|k: int| 0 <= k < (a + b).len() && (a + b)[k] == n;
        if k < a.len() {
            assert(a[k] == n);
        } else {
            assert(b[k - a.len()] == n);
        }
    }
    if name_in(a, n) {
        let k = choose|k: int| 0 <= k < a.len() && a[k] == n;
        assert((a + b)[k] == n);
    }
    if name_in(b, n) {
        let k = choose|k: int| 0 <= k < b.len() && b[k] == n;
        assert((a + b)[a.len() + k] == n);
    }
}

proof fn lemma_name_in_push(a: Seq<Seq<char>>, x: Seq<char>, n: Seq<char>)
    ensures
        name_in(a.push(x), n) == (name_in(a, n) || x == n),
{
    assert(a.push(x) =~= a + seq![x]);
    lemma_name_in_concat(a, seq![x], n);
    if name_in(seq![x], n) {
        let k = choose|k: int| 0 <= k < seq![x].len() && seq![x][k] == n;
        assert(seq![x][0] == x);
    }
    if x == n {
        assert(seq![x][0] == n);
    }
}

proof fn lemma_registered_names_concat(a: Seq<ItemView>, b: Seq<ItemView>)
    ensures
        registered_names(a + b) == registered_names(a) + registered_names(b),
    decreases a.len(),
{
    if a.len() == 0 {
        assert(a + b =~= b);
        assert(registered_names(a) + registered_names(b) =~= registered_names(b));
    } else {
        assert((a + b)[0] == a[0]);
        assert((a + b).drop_first() =~= a.drop_first() + b);
        lemma_registered_names_concat(a.drop_first(), b);
        assert(reg_name_of(a[0]) + (registered_names(a.drop_first()) + registered_names(b)) =~= (
        reg_name_of(a[0]) + registered_names(a.drop_first())) + registered_names(b));
    }
}

proof fn lemma_has_candidate_concat(a: Seq<ItemView>, b: Seq<ItemView>, n: Seq<char>)
    ensures
        has_candidate_named(a + b, n) == (has_candidate_named(a, n) || has_candidate_named(b, n)),
    decreases a.len(),
{
    if a.len() == 0 {
        assert(a + b =~= b);
    } else {
        assert((a + b)[0] == a[0]);
        assert((a + b).drop_first() =~= a.drop_first() + b);
        lemma_has_candidate_concat(a.drop_first(), b, n);
    }
}

proof fn lemma_has_candidate_index(items: Seq<ItemView>, k: int, n: Seq<char>)
    requires
        0 <= k < items.len(),
        candidate_name_is(items[k], n),
    ensures
        has_candidate_named(items, n),
    decreases items.len(),
{
    if k > 0 {
        assert(items.drop_first()[k - 1] == items[k]);
        lemma_has_candidate_index(items.drop_first(), k - 1, n);
    }
}

/// What the emitter inserts after one item registers exactly the item's own
/// fresh candidate name, and contains no candidate itself.
proof fn lemma_emitted_shape(
    item: ItemView,
    idx: CommentIndex,
    file: Seq<char>,
    module_flag: bool,
    already: Seq<Seq<char>>,
    n: Seq<char>,
)
    ensures
        !has_candidate_named(emitted_for(item, idx, file, module_flag, already), n),
        registered_names(emitted_for(item, idx, file, module_flag, already)) == (match classify_spec(
            item,
        ) {
            Some(c) => if name_in(already, c.name) {
                Seq::<Seq<char>>::empty()
            } else {
                seq![c.name]
            },
            None => Seq::<Seq<char>>::empty(),
        }),
{
    let em = emitted_for(item, idx, file, module_flag, already);
    assert(!has_candidate_named(Seq::<ItemView>::empty(), n));
    match classify_spec(item) {
        Some(c) => {
            if !name_in(already, c.name) {
                assert(em.drop_first() =~= seq![em[1]]);
                assert(seq![em[1]][0] == em[1]);
                assert(seq![em[1]].drop_first() =~= Seq::<ItemView>::empty());
                assert(has_candidate_named(seq![em[1]], n) == candidate_name_is(em[1], n));
                assert(!has_candidate_named(em, n));
                assert(seq![em[1]].drop_first() =~= Seq::<ItemView>::empty());
                assert(registered_names(Seq::<ItemView>::empty()) =~= Seq::<Seq<char>>::empty());
                assert(registered_names(seq![em[1]]) =~= seq![c.name]);
                assert(registered_names(em) =~= reg_name_of(em[0]) + registered_names(
                    seq![em[1]],
                ));
                assert(registered_names(em) =~= seq![c.name]);
            }
        },
        None => {},
    }
}

/// With every candidate name already registered, the pass inserts nothing
/// and hands the items back unchanged.
proof fn lemma_transform_no_new(
    items: Seq<ItemView>,
    idx: CommentIndex,
    file: Seq<char>,
    module_flag: bool,
    already: Seq<Seq<char>>,
)
    requires
        forall|k: int| 0 <= k < items.len() ==> (match classify_spec(#[trigger] items[k]) {
            Some(c) => name_in(already, c.name),
            None => true,
        }),
    ensures
        transform_items(items, idx, file, module_flag, already) == items,
    decreases items.len(),
{
    if items.len() > 0 {
        let a2 = names_after(items[0], already);
        assert forall|k: int| 0 <= k < items.drop_first().len() implies (match classify_spec(
            #[trigger] items.drop_first()[k],
        ) {
            Some(c) => name_in(a2, c.name),
            None => true,
        }) by {
            assert(items.drop_first()[k] == items[k + 1]);
            match classify_spec(items[k + 1]) {
                Some(c) => {
                    match classify_spec(items[0]) {
                        Some(c0) => {
                            lemma_name_in_push(already, c0.name, c.name);
                        },
                        None => {},
                    }
                },
                None => {},
            }
        }
        lemma_transform_no_new(items.drop_first(), idx, file, module_flag, a2);
        assert(seq![items[0]] + emitted_for(items[0], idx, file, module_flag, already)
            + items.drop_first() =~= items);
    }
}

/// The pass neither adds nor removes candidates: the candidates of the
/// output are those of the input.
proof fn lemma_transform_candidates(
    items: Seq<ItemView>,
    idx: CommentIndex,
    file: Seq<char>,
    module_flag: bool,
    already: Seq<Seq<char>>,
    n: Seq<char>,
)
    ensures
        has_candidate_named(transform_items(items, idx, file, module_flag, already), n)
            == has_candidate_named(items, n),
    decreases items.len(),
{
    if items.len() > 0 {
        let em = emitted_for(items[0], idx, file, module_flag, already);
        let rest = transform_items(
            items.drop_first(),
            idx,
            file,
            module_flag,
            names_after(items[0], already),
        );
        lemma_transform_candidates(
            items.drop_first(),
            idx,
            file,
            module_flag,
            names_after(items[0], already),
            n,
        );
        lemma_emitted_shape(items[0], idx, file, module_flag, already, n);
        lemma_has_candidate_concat(seq![items[0]], em, n);
        lemma_has_candidate_concat(seq![items[0]] + em, rest, n);
        assert(seq![items[0]].drop_first() =~= Seq::<ItemView>::empty());
        assert(seq![items[0]][0] == items[0]);
        assert(!has_candidate_named(Seq::<ItemView>::empty(), n));
        assert(has_candidate_named(seq![items[0]], n) == candidate_name_is(items[0], n));
    }
}

/// A registration present in the input is still present in the output.
proof fn lemma_registered_kept(
    items: Seq<ItemView>,
    idx: CommentIndex,
    file: Seq<char>,
    module_flag: bool,
    already: Seq<Seq<char>>,
    n: Seq<char>,
)
    requires
        name_in(registered_names(items), n),
    ensures
        name_in(
            registered_names(transform_items(items, idx, file, module_flag, already)),
            n,
        ),
    decreases items.len(),
{
    if items.len() > 0 {
        let em = emitted_for(items[0], idx, file, module_flag, already);
        let rest = transform_items(
            items.drop_first(),
            idx,
            file,
            module_flag,
            names_after(items[0], already),
        );
        lemma_registered_names_concat(seq![items[0]], em);
        lemma_registered_names_concat(seq![items[0]] + em, rest);
        assert(seq![items[0]].drop_first() =~= Seq::<ItemView>::empty());
        assert(registered_names(Seq::<ItemView>::empty()) =~= Seq::<Seq<char>>::empty());
        assert(seq![items[0]][0] == items[0]);
        assert(registered_names(seq![items[0]]) =~= reg_name_of(items[0]));
        lemma_name_in_concat(reg_name_of(items[0]), registered_names(items.drop_first()), n);
        lemma_name_in_concat(registered_names(seq![items[0]]), registered_names(em), n);
        lemma_name_in_concat(
            registered_names(seq![items[0]] + em),
            registered_names(rest),
            n,
        );
        if !name_in(reg_name_of(items[0]), n) {
            lemma_registered_kept(
                items.drop_first(),
                idx,
                file,
                module_flag,
                names_after(items[0], already),
                n,
            );
        }
    }
}

/// A candidate whose name is not yet registered gets its registration
/// inserted by the pass.
proof fn lemma_candidate_registered(
    items: Seq<ItemView>,
    idx: CommentIndex,
    file: Seq<char>,
    module_flag: bool,
    already: Seq<Seq<char>>,
    n: Seq<char>,
)
    requires
        has_candidate_named(items, n),
        !name_in(already, n),
    ensures
        name_in(
            registered_names(transform_items(items, idx, file, module_flag, already)),
            n,
        ),
    decreases items.len(),
{
    let em = emitted_for(items[0], idx, file, module_flag, already);
    let rest = transform_items(
        items.drop_first(),
        idx,
        file,
        module_flag,
        names_after(items[0], already),
    );
    lemma_registered_names_concat(seq![items[0]], em);
    lemma_registered_names_concat(seq![items[0]] + em, rest);
    assert(seq![items[0]].drop_first() =~= Seq::<ItemView>::empty());
    assert(registered_names(Seq::<ItemView>::empty()) =~= Seq::<Seq<char>>::empty());
    assert(seq![items[0]][0] == items[0]);
    assert(registered_names(seq![items[0]]) =~= reg_name_of(items[0]));
    lemma_emitted_shape(items[0], idx, file, module_flag, already, n);
    lemma_name_in_concat(registered_names(seq![items[0]]), registered_names(em), n);
    lemma_name_in_concat(registered_names(seq![items[0]] + em), registered_names(rest), n);
    if candidate_name_is(items[0], n) {
        assert(registered_names(em) == seq![n]);
        assert(seq![n][0] == n);
        assert(name_in(registered_names(em), n));
    } else {
        match classify_spec(items[0]) {
            Some(c0) => {
                lemma_name_in_push(already, c0.name, n);
            },
            None => {},
        }
        lemma_candidate_registered(
            items.drop_first(),
            idx,
            file,
            module_flag,
            names_after(items[0], already),
            n,
        );
    }
}

/// Idempotence: applying the pass to its own output changes nothing, so
/// already-instrumented code never receives duplicate registration calls.
pub proof fn lemma_transform_idempotent(m: ModuleView, idx: CommentIndex, file: Seq<char>)
    ensures
        transform_spec(transform_spec(m, idx, file), idx, file) == transform_spec(m, idx, file),
{
    let mflag = span_marked(idx, m.span);
    let a0 = registered_names(m.items);
    let out = transform_items(m.items, idx, file, mflag, a0);
    assert forall|k: int| 0 <= k < out.len() implies (match classify_spec(#[trigger] out[k]) {
        Some(c) => name_in(registered_names(out), c.name),
        None => true,
    }) by {
        match classify_spec(out[k]) {
            Some(c) => {
                lemma_has_candidate_index(out, k, c.name);
                lemma_transform_candidates(m.items, idx, file, mflag, a0, c.name);
                if name_in(a0, c.name) {
                    lemma_registered_kept(m.items, idx, file, mflag, a0, c.name);
                } else {
                    lemma_candidate_registered(m.items, idx, file, mflag, a0, c.name);
                }
            },
            None => {},
        }
    }
    lemma_transform_no_new(out, idx, file, mflag, registered_names(out));
}

} // verus!
