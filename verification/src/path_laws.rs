//! What holds of the normal form of every path.

use crate::path::{
    collapse, is_absolute_path, is_cur, is_up, joined, normal_form, rendered, segments,
};
use vstd::prelude::*;

verus! {

/// A segment free of separators.
pub open spec fn sep_free(seg: Seq<char>) -> bool {
    forall|j: int| 0 <= j < seg.len() ==> seg[j] != '/'
}

/// A segment that normalization keeps: not empty, not `.`, free of separators.
pub open spec fn kept(seg: Seq<char>) -> bool {
    seg.len() > 0 && !is_cur(seg) && sep_free(seg)
}

/// The shape of a stack after normalization: every segment is one that is
/// kept, and `..` occurs only in a relative path, and there only in front
/// of every name.
pub open spec fn settled(rooted: bool, stack: Seq<Seq<char>>) -> bool {
    &&& forall|i: int| 0 <= i < stack.len() ==> kept(#[trigger] stack[i])
    &&& forall|i: int|
        0 <= i < stack.len() && is_up(#[trigger] stack[i]) ==> !rooted && (i == 0 || is_up(
            stack[i - 1],
        ))
}

proof fn lemma_segments_sep_free(p: Seq<char>)
    ensures
        segments(p).len() >= 1,
        forall|i: int| 0 <= i < segments(p).len() ==> sep_free(#[trigger] segments(p)[i]),
    decreases p.len(),
{
    if p.len() > 0 {
        lemma_segments_sep_free(p.drop_last());
    }
}

proof fn lemma_segments_concat(a: Seq<char>, b: Seq<char>)
    ensures
        segments(a + seq!['/'] + b) == segments(a) + segments(b),
    decreases b.len(),
{
    let whole = a + seq!['/'] + b;
    if b.len() == 0 {
        assert(whole.drop_last() =~= a);
        assert(segments(whole) =~= segments(a) + segments(b));
    } else {
        let shorter = b.drop_last();
        lemma_segments_concat(a, shorter);
        lemma_segments_sep_free(shorter);
        assert(whole.drop_last() =~= a + seq!['/'] + shorter);
        assert(whole.last() == b.last());
        assert(segments(whole) =~= segments(a) + segments(b));
    }
}

proof fn lemma_segments_of_segment(s: Seq<char>)
    requires
        sep_free(s),
    ensures
        segments(s) == seq![s],
    decreases s.len(),
{
    if s.len() == 0 {
        assert(s =~= Seq::empty());
    } else {
        lemma_segments_of_segment(s.drop_last());
        assert(s.drop_last().push(s.last()) =~= s);
        assert(segments(s) =~= seq![s]);
    }
}

proof fn lemma_segments_of_joined(parts: Seq<Seq<char>>)
    requires
        parts.len() >= 1,
        forall|i: int| 0 <= i < parts.len() ==> sep_free(#[trigger] parts[i]),
    ensures
        segments(joined(parts)) == parts,
    decreases parts.len(),
{
    if parts.len() == 1 {
        lemma_segments_of_segment(parts[0]);
        assert(seq![parts[0]] =~= parts);
    } else {
        let front = parts.drop_last();
        lemma_segments_of_joined(front);
        lemma_segments_of_segment(parts.last());
        lemma_segments_concat(joined(front), parts.last());
        assert(front + seq![parts.last()] =~= parts);
    }
}

proof fn lemma_joined_first(parts: Seq<Seq<char>>)
    requires
        parts.len() >= 1,
        parts[0].len() > 0,
    ensures
        joined(parts).len() > 0,
        joined(parts)[0] == parts[0][0],
    decreases parts.len(),
{
    if parts.len() > 1 {
        lemma_joined_first(parts.drop_last());
    }
}

proof fn lemma_collapse_settled(rooted: bool, segs: Seq<Seq<char>>)
    requires
        forall|i: int| 0 <= i < segs.len() ==> sep_free(#[trigger] segs[i]),
    ensures
        settled(rooted, collapse(rooted, segs)),
    decreases segs.len(),
{
    if segs.len() > 0 {
        lemma_collapse_settled(rooted, segs.drop_last());
        assert(sep_free(segs.last()));
    }
}

proof fn lemma_collapse_of_settled(rooted: bool, stack: Seq<Seq<char>>)
    requires
        settled(rooted, stack),
    ensures
        collapse(rooted, stack) == stack,
    decreases stack.len(),
{
    if stack.len() == 0 {
        assert(stack =~= Seq::empty());
    } else {
        let front = stack.drop_last();
        assert(settled(rooted, front)) by {
            assert forall|i: int| 0 <= i < front.len() implies kept(#[trigger] front[i]) by {
                assert(front[i] == stack[i]);
            }
            assert forall|i: int| 0 <= i < front.len() && is_up(#[trigger] front[i]) implies !rooted
                && (i == 0 || is_up(front[i - 1])) by {
                assert(front[i] == stack[i]);
            }
        }
        lemma_collapse_of_settled(rooted, front);
        assert(kept(stack[stack.len() - 1]));
        assert(front.push(stack.last()) =~= stack);
        if is_up(stack.last()) && front.len() > 0 {
            assert(front.last() == stack[stack.len() - 2]);
        }
    }
}

proof fn lemma_collapse_after_empty(rooted: bool, segs: Seq<Seq<char>>)
    ensures
        collapse(rooted, seq![Seq::<char>::empty()] + segs) == collapse(rooted, segs),
    decreases segs.len(),
{
    let lead = seq![Seq::<char>::empty()];
    if segs.len() == 0 {
        assert(lead + segs =~= lead);
        assert(lead.drop_last() =~= Seq::<Seq<char>>::empty());
        assert(collapse(rooted, lead.drop_last()) =~= Seq::<Seq<char>>::empty());
        assert(collapse(rooted, lead) =~= Seq::<Seq<char>>::empty());
        assert(collapse(rooted, segs) =~= Seq::<Seq<char>>::empty());
    } else {
        lemma_collapse_after_empty(rooted, segs.drop_last());
        assert((lead + segs).drop_last() =~= lead + segs.drop_last());
        assert((lead + segs).last() == segs.last());
    }
}

/// The normal form of a path read again: it is absolute exactly when the
/// path is, and its segments collapse to the stack it was written from.
proof fn lemma_normal_form_reads_back(p: Seq<char>)
    ensures
        is_absolute_path(normal_form(p)) == is_absolute_path(p),
        settled(is_absolute_path(p), collapse(is_absolute_path(p), segments(p))),
        collapse(is_absolute_path(p), segments(normal_form(p))) == collapse(
            is_absolute_path(p),
            segments(p),
        ),
        is_absolute_path(p) ==> segments(normal_form(p)) == seq![Seq::<char>::empty()] + (if collapse(
            true,
            segments(p),
        ).len() == 0 {
            seq![Seq::<char>::empty()]
        } else {
            collapse(true, segments(p))
        }),
{
    let rooted = is_absolute_path(p);
    let stack = collapse(rooted, segments(p));
    let q = normal_form(p);
    lemma_segments_sep_free(p);
    lemma_collapse_settled(rooted, segments(p));
    lemma_collapse_of_settled(rooted, stack);
    if stack.len() > 0 {
        assert(kept(stack[0]));
        lemma_segments_of_joined(stack);
        lemma_joined_first(stack);
        assert(sep_free(stack[0]));
    }
    if rooted {
        let none = Seq::<char>::empty();
        assert(q =~= none + seq!['/'] + joined(stack));
        lemma_segments_concat(none, joined(stack));
        assert(segments(none) =~= seq![none]);
        if stack.len() == 0 {
            assert(joined(stack) =~= none);
            assert(segments(q) == seq![none] + seq![none]);
            lemma_collapse_after_empty(rooted, seq![none]);
            assert(seq![none].drop_last() =~= Seq::<Seq<char>>::empty());
            assert(collapse(rooted, seq![none]) =~= Seq::<Seq<char>>::empty());
            assert(stack =~= Seq::<Seq<char>>::empty());
        } else {
            lemma_collapse_after_empty(rooted, stack);
        }
    } else if stack.len() == 0 {
        let dot = seq!['.'];
        assert(q == dot);
        assert(sep_free(dot));
        lemma_segments_of_segment(dot);
        assert(seq![dot].drop_last() =~= Seq::<Seq<char>>::empty());
        assert(collapse(rooted, seq![dot]) =~= Seq::<Seq<char>>::empty());
        assert(stack =~= Seq::<Seq<char>>::empty());
    }
}

/// Normalizing a path that is in normal form changes nothing:
/// for every path `p`, the normal form of the normal form of `p` is the
/// normal form of `p`.
pub proof fn normal_form_is_idempotent(p: Seq<char>)
    ensures
        normal_form(normal_form(p)) == normal_form(p),
{
    lemma_normal_form_reads_back(p);
}

/// Normalization keeps a path on its side of the root: the normal form is
/// absolute exactly when the path is.
pub proof fn normal_form_keeps_root(p: Seq<char>)
    ensures
        is_absolute_path(normal_form(p)) == is_absolute_path(p),
{
    lemma_normal_form_reads_back(p);
}

/// The normal form of an absolute path never climbs above the root: it is
/// absolute, and none of its segments is `..`.
pub proof fn normal_form_stays_below_root(p: Seq<char>)
    requires
        is_absolute_path(p),
    ensures
        is_absolute_path(normal_form(p)),
        forall|i: int|
            0 <= i < segments(normal_form(p)).len() ==> !is_up(#[trigger] segments(normal_form(p))[i]),
{
    lemma_normal_form_reads_back(p);
    let stack = collapse(true, segments(p));
    let segs = segments(normal_form(p));
    let none = Seq::<char>::empty();
    assert forall|i: int| 0 <= i < segs.len() implies !is_up(#[trigger] segs[i]) by {
        if i > 0 && stack.len() > 0 {
            assert(segs[i] == stack[i - 1]);
        }
    }
}

/// Every segment of a normal form is one that normalization keeps, the
/// leading empty segment of an absolute path and the lone `.` of the empty
/// relative path apart: no `.` and no empty segment is left inside a path.
pub proof fn normal_form_is_settled(p: Seq<char>)
    ensures
        settled(is_absolute_path(p), collapse(is_absolute_path(p), segments(p))),
        normal_form(p) == rendered(is_absolute_path(p), collapse(is_absolute_path(p), segments(p))),
{
    lemma_normal_form_reads_back(p);
}

} // verus!
