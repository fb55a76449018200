use vstd::prelude::*;
use crate::comments::CommentIndex;
use crate::comments::marked_at;
use crate::span::Span;

verus! {

/// The comments attached around `s` carry the reset pragma. The three
/// comment sets inspected are, in order: trailing comments at `lo`, leading
/// comments at `lo`, and leading comments at `hi - 1` (skipped when the span
/// has no valid end position). A dummy span carries no comments and never
/// triggers reset.
pub open spec fn span_marked(idx: CommentIndex, s: Span) -> bool {
    !s.is_dummy() && (marked_at(idx.trailing@, s.lo) || marked_at(idx.leading@, s.lo) || (
    s.has_end() && marked_at(idx.leading@, (s.hi - 1) as u32)))
}

/// The reset flag in effect after visiting, in pre-order, the chain of
/// nested spans `path` (outermost first), starting from the flag `initial`
/// inherited by the outermost span.
pub open spec fn reset_after(idx: CommentIndex, path: Seq<Span>, initial: bool) -> bool
    decreases path.len(),
{
    if path.len() == 0 {
        initial
    } else {
        reset_after(idx, path.drop_last(), initial) || span_marked(idx, path.last())
    }
}

/// One step of the Reset-Scope Tracker: the flag for a span, given the flag
/// `inherited` from its enclosing span. When the inherited flag is already
/// set, the span's own comments are not inspected: once reset is forced for
/// an ancestor it holds for the whole subtree.
pub fn compute_reset(idx: &CommentIndex, inherited: bool, s: &Span) -> (r: bool)
    ensures
        r == (inherited || span_marked(*idx, *s)),
{
    if inherited {
        return true;
    }
    if s.is_dummy() {
        return false;
    }
    if idx.any_marked_trailing(s.lo) {
        return true;
    }
    if idx.any_marked_leading(s.lo) {
        return true;
    }
    if s.has_end() && idx.any_marked_leading(s.hi - 1) {
        return true;
    }
    false
}

/// The reset flag in effect for the innermost span of `path` (outermost
/// first), when the outermost span inherits no flag.
pub fn reset_flag_for_path(idx: &CommentIndex, path: &Vec<Span>) -> (r: bool)
    ensures
        r == reset_after(*idx, path@, false),
{
    let mut flag = false;
    let mut i: usize = 0;
    proof {
        assert(path@.take(0) =~= Seq::<Span>::empty());
    }
    while i < path.len()
        invariant
            i <= path@.len(),
            flag == reset_after(*idx, path@.take(i as int), false),
        decreases path@.len() - i,
    {
        flag = compute_reset(idx, flag, &path[i]);
        proof {
            assert(path@.take(i + 1).drop_last() =~= path@.take(i as int));
            assert(path@.take(i + 1).last() == path@[i as int]);
        }
        i += 1;
    }
    proof {
        assert(path@.take(path@.len() as int) =~= path@);
    }
    flag
}

/// A span chain none of whose spans carries the pragma, visited with no
/// inherited flag, ends with the flag still clear.
pub proof fn lemma_no_marker_no_reset(idx: CommentIndex, path: Seq<Span>)
    requires
        forall|k: int| 0 <= k < path.len() ==> !span_marked(idx, #[trigger] path[k]),
    ensures
        !reset_after(idx, path, false),
    decreases path.len(),
{
    if path.len() > 0 {
        assert(path.last() == path[path.len() - 1]);
        lemma_no_marker_no_reset(idx, path.drop_last());
    }
}

/// Monotonic propagation: once the flag is set after visiting the chain
/// `anc`, it stays set for every deeper chain `anc + rest`, whatever the
/// comments of the descendants say.
pub proof fn lemma_reset_monotonic(idx: CommentIndex, anc: Seq<Span>, rest: Seq<Span>, initial: bool)
    requires
        reset_after(idx, anc, initial),
    ensures
        reset_after(idx, anc + rest, initial),
    decreases rest.len(),
{
    if rest.len() == 0 {
        assert(anc + rest =~= anc);
    } else {
        lemma_reset_monotonic(idx, anc, rest.drop_last(), initial);
        assert((anc + rest).drop_last() =~= anc + rest.drop_last());
    }
}

} // verus!
