//! What holds of every step of a merge.

use crate::merge::{
    at_entry, copy_request, merge_advance, merge_begun, merge_step, past_entry, FrameView, MergeStepView,
    MergerView, WaitingView,
};
use crate::path::join_paths;
use crate::protocol::{EventView, RequestView};
use vstd::prelude::*;

verus! {

/// The path reached from `base` by going down through `names`, one after
/// the other.
pub open spec fn descend(base: Seq<char>, names: Seq<Seq<char>>) -> Seq<char>
    decreases names.len(),
{
    if names.len() == 0 {
        base
    } else {
        join_paths(descend(base, names.drop_last()), names.last())
    }
}

/// `to` lies under `dst` where `from` lies under `src`: the same names lead
/// from `src` to `from` and from `dst` to `to`.
pub open spec fn mirrored(from: Seq<char>, to: Seq<char>, src: Seq<char>, dst: Seq<char>) -> bool {
    exists|names: Seq<Seq<char>>| from == #[trigger] descend(src, names) && to == descend(dst, names)
}

/// `path` is `base` or lies under it.
pub open spec fn under(path: Seq<char>, base: Seq<char>) -> bool {
    exists|names: Seq<Seq<char>>| path == #[trigger] descend(base, names)
}

/// The frame copies a directory to its place under the destination.
pub open spec fn frame_in_place(f: FrameView, src: Seq<char>, dst: Seq<char>) -> bool {
    mirrored(f.from, f.to, src, dst)
}

/// Every directory that the merge of `src` into `dst` works on, or waits
/// for, is copied to its place under the destination.
pub open spec fn in_place(m: MergerView, src: Seq<char>, dst: Seq<char>) -> bool {
    &&& forall|k: int| 0 <= k < m.frames.len() ==> frame_in_place(#[trigger] m.frames[k], src, dst)
    &&& m.waiting matches WaitingView::Listing { from, to } ==> mirrored(from, to, src, dst)
}

proof fn lemma_advance_asks_little(frames: Seq<FrameView>)
    ensures
        match merge_advance(frames).1 {
            MergeStepView::Ask(request) => request is List || request is Probe,
            MergeStepView::Complete => true,
            MergeStepView::Rejected => false,
        },
    decreases frames.len(),
{
    if frames.len() > 0 {
        lemma_advance_asks_little(frames.drop_last());
    }
}

/// A merge only ever lists and probes directories, creates directories
/// and copies files: it removes, renames and links nothing.
pub proof fn merge_only_adds(m: MergerView, event: EventView)
    ensures
        merge_step(m, event).1 matches MergeStepView::Ask(request) ==> request is List
            || request is Probe || request is CreateDir || request is CopyFile,
{
    match event {
        EventView::Listing(items) => {
            lemma_advance_asks_little(
                m.frames.push(
                    FrameView {
                        from: m.waiting->Listing_from,
                        to: m.waiting->Listing_to,
                        items,
                        next: 0,
                    },
                ),
            );
        },
        EventView::Done => {
            lemma_advance_asks_little(past_entry(m.frames));
        },
        _ => {},
    }
}

proof fn lemma_mirrored_child(
    from: Seq<char>,
    to: Seq<char>,
    name: Seq<char>,
    src: Seq<char>,
    dst: Seq<char>,
)
    requires
        mirrored(from, to, src, dst),
    ensures
        mirrored(join_paths(from, name), join_paths(to, name), src, dst),
{
    let names = choose|names: Seq<Seq<char>>|
        from == #[trigger] descend(src, names) && to == descend(dst, names);
    let longer = names.push(name);
    assert(longer.drop_last() =~= names);
    assert(join_paths(from, name) == descend(src, longer));
    assert(join_paths(to, name) == descend(dst, longer));
}

proof fn lemma_advance_in_place(frames: Seq<FrameView>, src: Seq<char>, dst: Seq<char>)
    requires
        forall|k: int| 0 <= k < frames.len() ==> frame_in_place(#[trigger] frames[k], src, dst),
    ensures
        in_place(merge_advance(frames).0, src, dst),
    decreases frames.len(),
{
    if frames.len() == 0 {
    } else if !at_entry(frames) {
        let rest = frames.drop_last();
        assert forall|k: int| 0 <= k < rest.len() implies frame_in_place(
            #[trigger] rest[k],
            src,
            dst,
        ) by {
            assert(rest[k] == frames[k]);
        }
        lemma_advance_in_place(rest, src, dst);
    } else {
        let top = frames.last();
        let item = top.items[top.next as int];
        assert(frame_in_place(frames[frames.len() - 1], src, dst));
        if item.is_dir {
            lemma_mirrored_child(top.from, top.to, item.name, src, dst);
            lemma_past_entry_in_place(frames, src, dst);
        }
    }
}

proof fn lemma_past_entry_in_place(frames: Seq<FrameView>, src: Seq<char>, dst: Seq<char>)
    requires
        frames.len() > 0,
        forall|k: int| 0 <= k < frames.len() ==> frame_in_place(#[trigger] frames[k], src, dst),
    ensures
        forall|k: int|
            0 <= k < past_entry(frames).len() ==> frame_in_place(
                #[trigger] past_entry(frames)[k],
                src,
                dst,
            ),
{
    let moved = past_entry(frames);
    assert forall|k: int| 0 <= k < moved.len() implies frame_in_place(
        #[trigger] moved[k],
        src,
        dst,
    ) by {
        assert(frame_in_place(frames[k], src, dst));
        if k < frames.len() - 1 {
            assert(moved[k] == frames[k]);
        }
    }
}

proof fn lemma_cursor_in_place(m: MergerView, src: Seq<char>, dst: Seq<char>)
    requires
        in_place(m, src, dst),
        at_entry(m.frames),
    ensures
        under(m.frames.last().to, dst),
        copy_request(m.frames) matches RequestView::CopyFile { from, to } && mirrored(
            from,
            to,
            src,
            dst,
        ),
{
    let top = m.frames.last();
    assert(frame_in_place(m.frames[m.frames.len() - 1], src, dst));
    lemma_mirrored_child(top.from, top.to, top.items[top.next as int].name, src, dst);
    let names = choose|names: Seq<Seq<char>>|
        top.from == #[trigger] descend(src, names) && top.to == descend(dst, names);
    assert(top.to == descend(dst, names));
}

/// A merge begins in place.
pub proof fn merge_begins_in_place(src: Seq<char>, dst: Seq<char>)
    ensures
        in_place(merge_begun(src, dst), src, dst),
{
    let names = Seq::<Seq<char>>::empty();
    assert(src == descend(src, names) && dst == descend(dst, names));
}

/// A merge stays in place, whatever the event.
pub proof fn merge_stays_in_place(m: MergerView, event: EventView, src: Seq<char>, dst: Seq<char>)
    requires
        in_place(m, src, dst),
    ensures
        in_place(merge_step(m, event).0, src, dst),
{
    match (m.waiting, event) {
        (WaitingView::Listing { from, to }, EventView::Listing(items)) => {
            let pushed = m.frames.push(FrameView { from, to, items, next: 0 });
            assert forall|k: int| 0 <= k < pushed.len() implies frame_in_place(
                #[trigger] pushed[k],
                src,
                dst,
            ) by {
                if k < m.frames.len() {
                    assert(pushed[k] == m.frames[k]);
                }
            }
            lemma_advance_in_place(pushed, src, dst);
        },
        (WaitingView::Copied, EventView::Done) => {
            if at_entry(m.frames) {
                lemma_past_entry_in_place(m.frames, src, dst);
                lemma_advance_in_place(past_entry(m.frames), src, dst);
            }
        },
        _ => {},
    }
}

/// The copy is an overlay. A merge that is in place writes a file only to
/// the place under the destination that the file has under the source, and
/// creates no directory but the destination and directories under it: what
/// the destination holds beside the files of the source is named in no
/// request.
pub proof fn merge_writes_in_place(m: MergerView, event: EventView, src: Seq<char>, dst: Seq<char>)
    requires
        in_place(m, src, dst),
    ensures
        merge_step(m, event).1 matches MergeStepView::Ask(RequestView::CopyFile { from, to })
            ==> mirrored(from, to, src, dst),
        merge_step(m, event).1 matches MergeStepView::Ask(RequestView::CreateDir { path })
            ==> under(path, dst),
{
    match (m.waiting, event) {
        (WaitingView::Listing { from, to }, EventView::Listing(items)) => {
            lemma_advance_asks_little(m.frames.push(FrameView { from, to, items, next: 0 }));
        },
        (WaitingView::Copied, EventView::Done) => {
            lemma_advance_asks_little(past_entry(m.frames));
        },
        (WaitingView::Probed, EventView::Exists(_)) => {
            if at_entry(m.frames) {
                lemma_cursor_in_place(m, src, dst);
            }
        },
        (WaitingView::Created, EventView::Done) => {
            if at_entry(m.frames) {
                lemma_cursor_in_place(m, src, dst);
            }
        },
        _ => {},
    }
}

} // verus!
