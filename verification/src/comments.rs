use vstd::prelude::*;
use crate::text::{contains_sub, spec_contains};

verus! {

/// The pragma marker: any comment whose text contains this literal
/// substring forces a full remount of the enclosing scope.
pub open spec fn marker() -> Seq<char> {
    "@refresh reset"@
}

/// `t` carries the reset pragma.
pub open spec fn contains_marker(t: Seq<char>) -> bool {
    spec_contains(t, marker())
}

/// `r` is true exactly when `t` carries the reset pragma.
pub fn text_contains_marker(t: &str) -> (r: bool)
    ensures
        r == contains_marker(t@),
{
    contains_sub(t, "@refresh reset")
}

/// A comment attached at a byte position of the source text. Comments are
/// owned by the index, looked up by position, and never mutated by the pass.
#[derive(Debug, PartialEq, Eq)]
pub struct Comment {
    /// The byte offset the comment is attached at.
    pub pos: u32,
    /// The comment's text, without its delimiters.
    pub text: String,
}

impl Clone for Comment {
    fn clone(&self) -> (r: Self)
        ensures
            r == *self,
    {
        Comment { pos: self.pos, text: self.text.clone() }
    }
}

/// Some comment of `cs` attached at `pos` carries the reset pragma.
pub open spec fn marked_at(cs: Seq<Comment>, pos: u32) -> bool {
    exists|k: int| 0 <= k < cs.len() && (#[trigger] cs[k]).pos == pos && contains_marker(cs[k].text@)
}

/// The comments of `cs` attached at `pos`, in their original order.
pub open spec fn comments_at(cs: Seq<Comment>, pos: u32) -> Seq<Comment> {
    cs.filter(|c: Comment| c.pos == pos)
}

/// A read-only lookup structure mapping byte offsets of the source to the
/// comments attached there, split by attachment side. Built once per file
/// by the host and queried by the transform; never mutated by the pass.
#[derive(Debug, PartialEq, Eq)]
pub struct CommentIndex {
    /// Comments attached immediately before the token at their position.
    pub leading: Vec<Comment>,
    /// Comments attached immediately after the token at their position.
    pub trailing: Vec<Comment>,
}

impl CommentIndex {
    /// Some leading comment at `pos` carries the reset pragma.
    pub open spec fn marked_leading(&self, pos: u32) -> bool {
        marked_at(self.leading@, pos)
    }

    /// Some trailing comment at `pos` carries the reset pragma.
    pub open spec fn marked_trailing(&self, pos: u32) -> bool {
        marked_at(self.trailing@, pos)
    }

    /// The leading comments attached at `pos`, in their original order.
    pub fn with_leading(&self, pos: u32) -> (r: Vec<Comment>)
        ensures
            r@ == comments_at(self.leading@, pos),
    {
        collect_at(&self.leading, pos)
    }

    /// The trailing comments attached at `pos`, in their original order.
    pub fn with_trailing(&self, pos: u32) -> (r: Vec<Comment>)
        ensures
            r@ == comments_at(self.trailing@, pos),
    {
        collect_at(&self.trailing, pos)
    }

    /// `r` is true exactly when some leading comment at `pos` carries the
    /// reset pragma.
    pub fn any_marked_leading(&self, pos: u32) -> (r: bool)
        ensures
            r == self.marked_leading(pos),
    {
        any_marked(&self.leading, pos)
    }

    /// `r` is true exactly when some trailing comment at `pos` carries the
    /// reset pragma.
    pub fn any_marked_trailing(&self, pos: u32) -> (r: bool)
        ensures
            r == self.marked_trailing(pos),
    {
        any_marked(&self.trailing, pos)
    }
}

fn collect_at(cs: &Vec<Comment>, pos: u32) -> (r: Vec<Comment>)
    ensures
        r@ == comments_at(cs@, pos),
{
    let mut r: Vec<Comment> = Vec::new();
    let mut i: usize = 0;
    proof {
        reveal(Seq::filter);
        assert(cs@.take(0) =~= Seq::<Comment>::empty());
    }
    while i < cs.len()
        invariant
            i <= cs@.len(),
            r@ == comments_at(cs@.take(i as int), pos),
        decreases cs@.len() - i,
    {
        if cs[i].pos == pos {
            r.push(cs[i].clone());
        }
        proof {
            reveal(Seq::filter);
            assert(cs@.take(i + 1).drop_last() =~= cs@.take(i as int));
            assert(cs@.take(i + 1).last() == cs@[i as int]);
        }
        i += 1;
    }
    proof {
        assert(cs@.take(cs@.len() as int) =~= cs@);
    }
    r
}

fn any_marked(cs: &Vec<Comment>, pos: u32) -> (r: bool)
    ensures
        r == marked_at(cs@, pos),
{
    let mut i: usize = 0;
    while i < cs.len()
        invariant
            i <= cs@.len(),
            forall|k: int| 0 <= k < i ==> !((#[trigger] cs@[k]).pos == pos && contains_marker(cs@[k].text@)),
        decreases cs@.len() - i,
    {
        if cs[i].pos == pos && text_contains_marker(cs[i].text.as_str()) {
            return true;
        }
        i += 1;
    }
    false
}

} // verus!
