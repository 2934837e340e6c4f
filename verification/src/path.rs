//! Lexical paths.
//!
//! A path is a string whose segments are separated by `/`. Nothing in this
//! module looks at a file system: a path is taken apart, reduced and put
//! together again by its characters alone, so that a path which does not
//! exist yet has the same normal form as one which does.

use vstd::prelude::*;

verus! {

/// `String::push` appends one character to the end of the string.
pub assume_specification[ String::push ](s: &mut String, c: char)
    ensures
        final(s)@ == old(s)@.push(c),
;

/// The segments of `p`: the runs of characters between separators, empty
/// runs included, in order. There is always at least one.
pub open spec fn segments(p: Seq<char>) -> Seq<Seq<char>>
    decreases p.len(),
{
    if p.len() == 0 {
        seq![Seq::empty()]
    } else {
        let before = segments(p.drop_last());
        if p.last() == '/' {
            before.push(Seq::empty())
        } else {
            before.drop_last().push(before.last().push(p.last()))
        }
    }
}

/// The segment `.`, which names the directory it stands in.
pub open spec fn is_cur(seg: Seq<char>) -> bool {
    seg.len() == 1 && seg[0] == '.'
}

/// The segment `..`, which names the parent directory.
pub open spec fn is_up(seg: Seq<char>) -> bool {
    seg.len() == 2 && seg[0] == '.' && seg[1] == '.'
}

/// A path is absolute when it begins with a separator.
pub open spec fn is_absolute_path(p: Seq<char>) -> bool {
    p.len() > 0 && p[0] == '/'
}

/// What one more segment does to the stack of segments kept so far. Empty
/// segments and `.` leave it alone. `..` cancels a name on top of the stack;
/// on top of another `..`, or at the bottom of a relative path, it stays;
/// at the root it is dropped, since nothing lies above the root.
pub open spec fn apply_segment(rooted: bool, stack: Seq<Seq<char>>, seg: Seq<char>) -> Seq<
    Seq<char>,
> {
    if seg.len() == 0 || is_cur(seg) {
        stack
    } else if is_up(seg) {
        if stack.len() == 0 {
            if rooted {
                stack
            } else {
                stack.push(seg)
            }
        } else if is_up(stack.last()) {
            stack.push(seg)
        } else {
            stack.drop_last()
        }
    } else {
        stack.push(seg)
    }
}

/// The stack that is left when the segments are applied from left to right.
pub open spec fn collapse(rooted: bool, segs: Seq<Seq<char>>) -> Seq<Seq<char>>
    decreases segs.len(),
{
    if segs.len() == 0 {
        Seq::empty()
    } else {
        apply_segment(rooted, collapse(rooted, segs.drop_last()), segs.last())
    }
}

/// The segments written one after the other with a separator between each two.
pub open spec fn joined(parts: Seq<Seq<char>>) -> Seq<char>
    decreases parts.len(),
{
    if parts.len() == 0 {
        Seq::empty()
    } else if parts.len() == 1 {
        parts[0]
    } else {
        joined(parts.drop_last()) + seq!['/'] + parts.last()
    }
}

/// The path that a stack stands for. An empty relative stack is written `.`.
pub open spec fn rendered(rooted: bool, parts: Seq<Seq<char>>) -> Seq<char> {
    if rooted {
        seq!['/'] + joined(parts)
    } else if parts.len() == 0 {
        seq!['.']
    } else {
        joined(parts)
    }
}

/// The lexical normal form of a path.
pub open spec fn normal_form(p: Seq<char>) -> Seq<char> {
    rendered(is_absolute_path(p), collapse(is_absolute_path(p), segments(p)))
}

/// The last segment that names something, if the path ends in a name:
/// trailing separators and `.` are passed over, and a path that ends in `..`
/// or has no segment but these has no file name.
pub open spec fn last_name(segs: Seq<Seq<char>>) -> Option<Seq<char>>
    decreases segs.len(),
{
    if segs.len() == 0 {
        None
    } else if segs.last().len() == 0 || is_cur(segs.last()) {
        last_name(segs.drop_last())
    } else if is_up(segs.last()) {
        None
    } else {
        Some(segs.last())
    }
}

/// The file name of a path.
pub open spec fn file_name_of(p: Seq<char>) -> Option<Seq<char>> {
    last_name(segments(p))
}

/// `rel` seen from `base`: an absolute `rel` stands for itself; otherwise it
/// is written behind `base`, after a separator unless `base` is empty or
/// ends in one.
pub open spec fn join_paths(base: Seq<char>, rel: Seq<char>) -> Seq<char> {
    if is_absolute_path(rel) {
        rel
    } else if base.len() == 0 || base.last() == '/' {
        base + rel
    } else {
        base + seq!['/'] + rel
    }
}

/// The texts of a vector of character vectors.
pub open spec fn texts(v: Seq<Vec<char>>) -> Seq<Seq<char>> {
    v.map_values(|t: Vec<char>| t@)
}

/// The characters of a string slice.
pub fn chars_of(p: &str) -> (v: Vec<char>)
    ensures
        v@ == p@,
{
    let mut v: Vec<char> = Vec::new();
    for c in it: p.chars()
        invariant
            v@ == p@.take(it.index() as int),
            it.seq() == p@,
    {
        v.push(c);
    }
    v
}

/// The string made of the given characters.
pub fn text_of(v: &Vec<char>) -> (s: String)
    ensures
        s@ == v@,
{
    let mut s = String::new();
    let mut i: usize = 0;
    while i < v.len()
        invariant
            i <= v.len(),
            s@ == v@.take(i as int),
        decreases v.len() - i,
    {
        s.push(v[i]);
        i += 1;
    }
    s
}

fn append_chars(out: &mut Vec<char>, seg: &Vec<char>)
    ensures
        final(out)@ == old(out)@ + seg@,
{
    let mut i: usize = 0;
    while i < seg.len()
        invariant
            i <= seg.len(),
            out@ == old(out)@ + seg@.take(i as int),
        decreases seg.len() - i,
    {
        out.push(seg[i]);
        i += 1;
    }
}

fn seg_is_cur(seg: &Vec<char>) -> (b: bool)
    ensures
        b == is_cur(seg@),
{
    seg.len() == 1 && seg[0] == '.'
}

fn seg_is_up(seg: &Vec<char>) -> (b: bool)
    ensures
        b == is_up(seg@),
{
    seg.len() == 2 && seg[0] == '.' && seg[1] == '.'
}

fn settle(rooted: bool, stack: &mut Vec<Vec<char>>, seg: Vec<char>)
    ensures
        texts(final(stack)@) == apply_segment(rooted, texts(old(stack)@), seg@),
{
    broadcast use Seq::lemma_push_map_commute;

    if seg.len() == 0 || seg_is_cur(&seg) {
    } else if seg_is_up(&seg) {
        let n = stack.len();
        if n == 0 {
            if !rooted {
                stack.push(seg);
            }
        } else if seg_is_up(&stack[n - 1]) {
            stack.push(seg);
        } else {
            stack.pop();
            assert(texts(stack@) =~= texts(old(stack)@).drop_last());
        }
    } else {
        stack.push(seg);
    }
}

fn render(rooted: bool, stack: &Vec<Vec<char>>) -> (out: Vec<char>)
    ensures
        out@ == rendered(rooted, texts(stack@)),
{
    let mut out: Vec<char> = Vec::new();
    if rooted {
        out.push('/');
    } else if stack.len() == 0 {
        out.push('.');
        assert(out@ =~= seq!['.']);
        return out;
    }
    let ghost lead = out@;
    let mut k: usize = 0;
    while k < stack.len()
        invariant
            k <= stack.len(),
            out@ == lead + joined(texts(stack@).take(k as int)),
        decreases stack.len() - k,
    {
        let ghost parts = texts(stack@).take(k as int + 1);
        assert(parts.drop_last() =~= texts(stack@).take(k as int));
        assert(parts.last() == stack@[k as int]@);
        if k > 0 {
            out.push('/');
        }
        append_chars(&mut out, &stack[k]);
        k += 1;
        assert(out@ =~= lead + joined(parts));
    }
    assert(texts(stack@).take(k as int) =~= texts(stack@));
    assert(lead =~= if rooted { seq!['/'] } else { Seq::<char>::empty() });
    out
}

/// Whether the path begins at the root.
pub fn is_absolute(p: &str) -> (b: bool)
    ensures
        b == is_absolute_path(p@),
{
    let chars = chars_of(p);
    chars.len() > 0 && chars[0] == '/'
}

/// Brings a path into its lexical normal form: `.` and empty segments go,
/// each `..` cancels the name before it, and a `..` that would climb above
/// the root is dropped. The file system is not consulted and no link is
/// followed. A path of which nothing is left becomes `.`.
pub fn normalize(p: &str) -> (r: String)
    ensures
        r@ == normal_form(p@),
{
    let chars = chars_of(p);
    let rooted = chars.len() > 0 && chars[0] == '/';
    let mut stack: Vec<Vec<char>> = Vec::new();
    let mut cur: Vec<char> = Vec::new();
    let ghost mut done: Seq<Seq<char>> = Seq::empty();
    let mut i: usize = 0;
    assert(chars@.take(0) =~= Seq::<char>::empty());
    assert(segments(chars@.take(0)) =~= done.push(cur@));
    assert(texts(stack@) =~= collapse(rooted, done));
    while i < chars.len()
        invariant
            i <= chars.len(),
            segments(chars@.take(i as int)) == done.push(cur@),
            texts(stack@) == collapse(rooted, done),
        decreases chars.len() - i,
    {
        let c = chars[i];
        let ghost upto = chars@.take(i as int + 1);
        assert(upto.drop_last() =~= chars@.take(i as int));
        assert(upto.last() == c);
        if c == '/' {
            let seg = cur;
            cur = Vec::new();
            proof {
                assert(done.push(seg@).drop_last() =~= done);
                done = done.push(seg@);
            }
            settle(rooted, &mut stack, seg);
            assert(segments(upto) =~= done.push(cur@));
        } else {
            let ghost before = cur@;
            cur.push(c);
            assert(done.push(before).drop_last() =~= done);
            assert(segments(upto) =~= done.push(cur@));
        }
        i += 1;
    }
    assert(chars@.take(i as int) =~= chars@);
    assert(done.push(cur@).drop_last() =~= done);
    settle(rooted, &mut stack, cur);
    let out = render(rooted, &stack);
    text_of(&out)
}

/// The final name of a path, as `file_name_of` gives it.
pub fn file_name(p: &str) -> (r: Option<String>)
    ensures
        r.deep_view() == file_name_of(p@),
{
    let chars = chars_of(p);
    let mut best: Option<Vec<char>> = None;
    let mut cur: Vec<char> = Vec::new();
    let ghost mut done: Seq<Seq<char>> = Seq::empty();
    let mut i: usize = 0;
    assert(chars@.take(0) =~= Seq::<char>::empty());
    assert(segments(chars@.take(0)) =~= done.push(cur@));
    while i < chars.len()
        invariant
            i <= chars.len(),
            segments(chars@.take(i as int)) == done.push(cur@),
            best.deep_view() == last_name(done),
        decreases chars.len() - i,
    {
        let c = chars[i];
        let ghost upto = chars@.take(i as int + 1);
        assert(upto.drop_last() =~= chars@.take(i as int));
        assert(upto.last() == c);
        if c == '/' {
            let seg = cur;
            cur = Vec::new();
            proof {
                assert(done.push(seg@).drop_last() =~= done);
                done = done.push(seg@);
            }
            best = later_name(best, seg);
            assert(segments(upto) =~= done.push(cur@));
        } else {
            let ghost before = cur@;
            cur.push(c);
            assert(done.push(before).drop_last() =~= done);
            assert(segments(upto) =~= done.push(cur@));
        }
        i += 1;
    }
    assert(chars@.take(i as int) =~= chars@);
    assert(done.push(cur@).drop_last() =~= done);
    match later_name(best, cur) {
        Some(name) => Some(text_of(&name)),
        None => None,
    }
}

fn later_name(best: Option<Vec<char>>, seg: Vec<char>) -> (r: Option<Vec<char>>)
    ensures
        r.deep_view() == (if seg@.len() == 0 || is_cur(seg@) {
            best.deep_view()
        } else if is_up(seg@) {
            None
        } else {
            Some(seg@)
        }),
{
    if seg.len() == 0 || seg_is_cur(&seg) {
        best
    } else if seg_is_up(&seg) {
        None
    } else {
        Some(seg)
    }
}

/// `rel` seen from `base`, as `join_paths` gives it.
pub fn join(base: &str, rel: &str) -> (r: String)
    ensures
        r@ == join_paths(base@, rel@),
{
    let tail = chars_of(rel);
    if tail.len() > 0 && tail[0] == '/' {
        return text_of(&tail);
    }
    let mut out = chars_of(base);
    let n = out.len();
    if n > 0 && out[n - 1] != '/' {
        out.push('/');
    }
    append_chars(&mut out, &tail);
    text_of(&out)
}

} // verus!
