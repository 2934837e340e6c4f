//! Copying a tree of seed data over a backing directory.
//!
//! The copy is an overlay: every file of the source tree is written to the
//! same place under the destination, over what may be there, and nothing
//! else under the destination is touched. A destination directory is made
//! only when a file is about to be written into it.
//!
//! The walk is depth first, in the order of each listing. It is kept as a
//! stack of directories that are being worked on, so that the driver only
//! ever does one piece of work at a time.

use crate::path::{join, join_paths};
use crate::protocol::{
    listing_view, DirItem, DirItemView, Event, EventView, Request, RequestView,
};
use vstd::prelude::*;

verus! {

/// A directory of the source tree that is being copied.
#[derive(Clone, Debug, PartialEq, Eq)]
pub struct Frame {
    /// The source directory.
    pub from: String,
    /// The directory that its files are copied into.
    pub to: String,
    /// The listing of the source directory.
    pub items: Vec<DirItem>,
    /// How many entries of the listing are dealt with.
    pub next: usize,
}

pub struct FrameView {
    pub from: Seq<char>,
    pub to: Seq<char>,
    pub items: Seq<DirItemView>,
    pub next: nat,
}

impl View for Frame {
    type V = FrameView;

    open spec fn view(&self) -> FrameView {
        FrameView {
            from: self.from@,
            to: self.to@,
            items: listing_view(self.items@),
            next: self.next as nat,
        }
    }
}

/// The views of a stack of frames.
pub open spec fn frames_view(frames: Seq<Frame>) -> Seq<FrameView> {
    frames.map_values(|f: Frame| f@)
}

/// What a merge is waiting for.
#[derive(Clone, Debug, PartialEq, Eq)]
pub enum Waiting {
    /// Nothing: the merge is complete, or was never begun.
    Idle,
    /// The listing of the source directory `from`, to be copied into `to`.
    Listing { from: String, to: String },
    /// Whether the destination directory of the file at the cursor exists.
    Probed,
    /// The creation of that destination directory.
    Created,
    /// The copy of the file at the cursor.
    Copied,
    /// An event came that was no answer to what was asked.
    Broken,
}

pub enum WaitingView {
    Idle,
    Listing { from: Seq<char>, to: Seq<char> },
    Probed,
    Created,
    Copied,
    Broken,
}

impl View for Waiting {
    type V = WaitingView;

    open spec fn view(&self) -> WaitingView {
        match *self {
            Waiting::Idle => WaitingView::Idle,
            Waiting::Listing { from, to } => WaitingView::Listing { from: from@, to: to@ },
            Waiting::Probed => WaitingView::Probed,
            Waiting::Created => WaitingView::Created,
            Waiting::Copied => WaitingView::Copied,
            Waiting::Broken => WaitingView::Broken,
        }
    }
}

/// A merge in progress.
#[derive(Clone, Debug, PartialEq, Eq)]
pub struct Merger {
    /// The directories being worked on, the innermost last.
    pub frames: Vec<Frame>,
    /// What the driver was asked last.
    pub waiting: Waiting,
}

pub struct MergerView {
    pub frames: Seq<FrameView>,
    pub waiting: WaitingView,
}

impl View for Merger {
    type V = MergerView;

    open spec fn view(&self) -> MergerView {
        MergerView { frames: frames_view(self.frames@), waiting: self.waiting@ }
    }
}

/// What a merge says after an event.
#[derive(Clone, Debug, PartialEq, Eq)]
pub enum MergeStep {
    /// The driver is to do this and report back.
    Ask(Request),
    /// Every file is copied.
    Complete,
    /// The event was no answer to what was asked.
    Rejected,
}

pub enum MergeStepView {
    Ask(RequestView),
    Complete,
    Rejected,
}

impl View for MergeStep {
    type V = MergeStepView;

    open spec fn view(&self) -> MergeStepView {
        match *self {
            MergeStep::Ask(request) => MergeStepView::Ask(request@),
            MergeStep::Complete => MergeStepView::Complete,
            MergeStep::Rejected => MergeStepView::Rejected,
        }
    }
}

/// A merge that has nothing to do.
pub open spec fn merge_idle() -> MergerView {
    MergerView { frames: Seq::empty(), waiting: WaitingView::Idle }
}

/// A merge of the tree at `src` into `dst`, before its first event: it
/// waits for the listing of `src`.
pub open spec fn merge_begun(src: Seq<char>, dst: Seq<char>) -> MergerView {
    MergerView { frames: Seq::empty(), waiting: WaitingView::Listing { from: src, to: dst } }
}

/// Whether the innermost frame has an entry at its cursor.
pub open spec fn at_entry(frames: Seq<FrameView>) -> bool {
    frames.len() > 0 && frames.last().next < frames.last().items.len()
}

/// The request that copies the file at the cursor.
pub open spec fn copy_request(frames: Seq<FrameView>) -> RequestView {
    let top = frames.last();
    let name = top.items[top.next as int].name;
    RequestView::CopyFile { from: join_paths(top.from, name), to: join_paths(top.to, name) }
}

/// The stack with the cursor of its innermost frame moved on by one.
pub open spec fn past_entry(frames: Seq<FrameView>) -> Seq<FrameView> {
    let top = frames.last();
    frames.drop_last().push(FrameView { next: top.next + 1, ..top })
}

/// The next piece of work that the stack holds. Frames that are used up are
/// left; a subdirectory is entered by asking for its listing; a file is
/// copied after a look at the directory it goes to. With no frame left the
/// merge is complete.
pub open spec fn merge_advance(frames: Seq<FrameView>) -> (MergerView, MergeStepView)
    decreases frames.len(),
{
    if frames.len() == 0 {
        (merge_idle(), MergeStepView::Complete)
    } else if !at_entry(frames) {
        merge_advance(frames.drop_last())
    } else {
        let top = frames.last();
        let item = top.items[top.next as int];
        if item.is_dir {
            let from = join_paths(top.from, item.name);
            let to = join_paths(top.to, item.name);
            (
                MergerView { frames: past_entry(frames), waiting: WaitingView::Listing { from, to } },
                MergeStepView::Ask(RequestView::List { dir: from }),
            )
        } else {
            (
                MergerView { frames, waiting: WaitingView::Probed },
                MergeStepView::Ask(RequestView::Probe { path: top.to }),
            )
        }
    }
}

/// The merge that no longer knows where it is.
pub open spec fn merge_broken(m: MergerView) -> (MergerView, MergeStepView) {
    (MergerView { frames: m.frames, waiting: WaitingView::Broken }, MergeStepView::Rejected)
}

/// What a merge does on an event.
pub open spec fn merge_step(m: MergerView, event: EventView) -> (MergerView, MergeStepView) {
    match (m.waiting, event) {
        (WaitingView::Listing { from, to }, EventView::Listing(items)) => merge_advance(
            m.frames.push(FrameView { from, to, items, next: 0 }),
        ),
        (WaitingView::Probed, EventView::Exists(present)) => if !at_entry(m.frames) {
            merge_broken(m)
        } else if present {
            (
                MergerView { frames: m.frames, waiting: WaitingView::Copied },
                MergeStepView::Ask(copy_request(m.frames)),
            )
        } else {
            (
                MergerView { frames: m.frames, waiting: WaitingView::Created },
                MergeStepView::Ask(RequestView::CreateDir { path: m.frames.last().to }),
            )
        },
        (WaitingView::Created, EventView::Done) => if !at_entry(m.frames) {
            merge_broken(m)
        } else {
            (
                MergerView { frames: m.frames, waiting: WaitingView::Copied },
                MergeStepView::Ask(copy_request(m.frames)),
            )
        },
        (WaitingView::Copied, EventView::Done) => if !at_entry(m.frames) {
            merge_broken(m)
        } else {
            merge_advance(past_entry(m.frames))
        },
        _ => merge_broken(m),
    }
}

fn advance(stack: Vec<Frame>) -> (r: (Merger, MergeStep))
    ensures
        (r.0@, r.1@) == merge_advance(frames_view(stack@)),
{
    broadcast use Seq::lemma_push_map_commute;

    let mut frames = stack;
    loop
        invariant
            merge_advance(frames_view(frames@)) == merge_advance(frames_view(stack@)),
        decreases frames.len(),
    {
        let ghost stack = frames_view(frames@);
        match frames.pop() {
            None => {
                assert(frames_view(frames@) =~= Seq::<FrameView>::empty());
                return (Merger { frames, waiting: Waiting::Idle }, MergeStep::Complete);
            },
            Some(top) => {
                assert(frames_view(frames@) =~= stack.drop_last());
                assert(stack.last() == top@);
                if top.next < top.items.len() {
                    let item = &top.items[top.next];
                    assert(top@.items[top.next as int] == item@);
                    if item.is_dir {
                        let from = join(top.from.as_str(), item.name.as_str());
                        let to = join(top.to.as_str(), item.name.as_str());
                        let dir = from.clone();
                        let moved = Frame {
                            from: top.from,
                            to: top.to,
                            items: top.items,
                            next: top.next + 1,
                        };
                        frames.push(moved);
                        assert(frames_view(frames@) =~= past_entry(stack));
                        return (
                            Merger { frames, waiting: Waiting::Listing { from, to } },
                            MergeStep::Ask(Request::List { dir }),
                        );
                    } else {
                        let path = top.to.clone();
                        frames.push(top);
                        assert(frames_view(frames@) =~= stack);
                        return (
                            Merger { frames, waiting: Waiting::Probed },
                            MergeStep::Ask(Request::Probe { path }),
                        );
                    }
                }
            },
        }
    }
}

fn copy_at_cursor(frames: &Vec<Frame>) -> (r: Request)
    requires
        at_entry(frames_view(frames@)),
    ensures
        r@ == copy_request(frames_view(frames@)),
{
    let top = &frames[frames.len() - 1];
    let item = &top.items[top.next];
    assert(frames_view(frames@).last() == top@);
    assert(top@.items[top.next as int] == item@);
    Request::CopyFile {
        from: join(top.from.as_str(), item.name.as_str()),
        to: join(top.to.as_str(), item.name.as_str()),
    }
}

fn has_entry(frames: &Vec<Frame>) -> (b: bool)
    ensures
        b == at_entry(frames_view(frames@)),
{
    let n = frames.len();
    if n == 0 {
        return false;
    }
    assert(frames_view(frames@).last() == frames@[n - 1]@);
    frames[n - 1].next < frames[n - 1].items.len()
}

fn step_over(frames: Vec<Frame>) -> (r: Vec<Frame>)
    requires
        at_entry(frames_view(frames@)),
    ensures
        frames_view(r@) == past_entry(frames_view(frames@)),
{
    broadcast use Seq::lemma_push_map_commute;

    let ghost stack = frames_view(frames@);
    let mut frames = frames;
    let top = frames.pop().unwrap();
    assert(frames_view(frames@) =~= stack.drop_last());
    assert(stack.last() == top@);
    assert(top@.items.len() == top.items.len());
    frames.push(Frame { from: top.from, to: top.to, items: top.items, next: top.next + 1 });
    assert(frames_view(frames@) =~= past_entry(stack));
    frames
}

impl Merger {
    /// A merge that has nothing to do.
    pub fn idle() -> (m: Merger)
        ensures
            m@ == merge_idle(),
    {
        let m = Merger { frames: Vec::new(), waiting: Waiting::Idle };
        assert(m@.frames =~= Seq::<FrameView>::empty());
        m
    }

    fn broken(self) -> (r: (Merger, MergeStep))
        ensures
            (r.0@, r.1@) == merge_broken(self@),
    {
        (Merger { frames: self.frames, waiting: Waiting::Broken }, MergeStep::Rejected)
    }

    /// Takes the answer to the last request and says what comes next.
    pub fn step(self, event: Event) -> (r: (Merger, MergeStep))
        ensures
            (r.0@, r.1@) == merge_step(self@, event@),
    {
        broadcast use Seq::lemma_push_map_commute;

        let Merger { frames, waiting } = self;
        match (waiting, event) {
            (Waiting::Listing { from, to }, Event::Listing(items)) => {
                let mut frames = frames;
                frames.push(Frame { from, to, items, next: 0 });
                advance(frames)
            },
            (Waiting::Probed, Event::Exists(present)) => {
                if !has_entry(&frames) {
                    Merger { frames, waiting: Waiting::Probed }.broken()
                } else if present {
                    let request = copy_at_cursor(&frames);
                    (Merger { frames, waiting: Waiting::Copied }, MergeStep::Ask(request))
                } else {
                    let n = frames.len();
                    assert(frames_view(frames@).last() == frames@[n - 1]@);
                    let path = frames[n - 1].to.clone();
                    (
                        Merger { frames, waiting: Waiting::Created },
                        MergeStep::Ask(Request::CreateDir { path }),
                    )
                }
            },
            (Waiting::Created, Event::Done) => {
                if !has_entry(&frames) {
                    Merger { frames, waiting: Waiting::Created }.broken()
                } else {
                    let request = copy_at_cursor(&frames);
                    (Merger { frames, waiting: Waiting::Copied }, MergeStep::Ask(request))
                }
            },
            (Waiting::Copied, Event::Done) => {
                if !has_entry(&frames) {
                    Merger { frames, waiting: Waiting::Copied }.broken()
                } else {
                    advance(step_over(frames))
                }
            },
            (waiting, _) => Merger { frames, waiting }.broken(),
        }
    }
}

/// Begins the copy of everything under `src` into `dst`: the merge to step
/// from here on, and its first request, the listing of `src`.
pub fn copy_all(src: &str, dst: &str) -> (r: (Merger, Request))
    ensures
        r.0@ == merge_begun(src@, dst@),
        r.1@ == (RequestView::List { dir: src@ }),
{
    let from = src.to_owned();
    let to = dst.to_owned();
    let dir = src.to_owned();
    let m = Merger { frames: Vec::new(), waiting: Waiting::Listing { from, to } };
    assert(m@.frames =~= Seq::<FrameView>::empty());
    (m, Request::List { dir })
}

} // verus!
