//! Reconciling one entry: bringing a target to be a symbolic link to its
//! backing directory.
//!
//! What is at the target decides what is done first. A link to the recorded
//! backing directory is left alone. A link to somewhere else is removed, the
//! link only. Anything that is no link is renamed to `<target>.old`, never
//! deleted. Then the target is linked: to the recorded backing directory if
//! it still exists, else to a new one under the storage root, which is named
//! after the target where the target has a name. At the end the seed data,
//! if any, is copied over the backing directory.
//!
//! A link at a target for which no backing directory is recorded is left as
//! it is: without a recorded directory there is nothing to hold it against.

use crate::merge::{
    copy_all, merge_begun, merge_idle, merge_step, MergeStep, MergeStepView, Merger, MergerView,
};
use crate::path::{file_name, file_name_of, is_absolute, is_absolute_path};
use crate::protocol::{
    Event, EventView, Failure, Request, RequestView, Step, StepView, TargetState, TargetStateView,
};
use crate::registry::{copy_text, text_view, LinkDirectory, LinkView};
use vstd::prelude::*;
use vstd::string::StringExecFns;

verus! {

/// Where the reconciliation of an entry stands: what was asked last.
#[derive(Clone, Copy, Debug, PartialEq, Eq, Structural)]
pub enum Phase {
    /// What is at the target?
    Inspecting,
    /// The removal of a link that points elsewhere.
    Unlinking,
    /// The renaming of what is in the way.
    BackingUp,
    /// Does the recorded backing directory exist?
    ProbingBacking,
    /// The link to the recorded backing directory.
    Reusing,
    /// A free name under the storage root.
    Allocating,
    /// The creation of a new backing directory.
    MakingBacking,
    /// The link to the new backing directory.
    LinkingFresh,
    /// The copy of the seed data.
    Seeding,
    /// The absolute form of the seed data's path.
    Resolving,
    /// The entry is reconciled.
    Settled,
    /// The reconciliation cannot go on.
    Failed,
}

/// The reconciliation of one entry.
#[derive(Clone, Debug, PartialEq, Eq)]
pub struct Reconciler {
    /// The target, as the registry has it.
    pub target: String,
    /// The storage root.
    pub root: String,
    /// What is recorded for the target, as far as it is known by now.
    pub link: LinkDirectory,
    /// What was asked last.
    pub phase: Phase,
    /// Whether a backing directory was newly allocated.
    pub changed: bool,
    /// The new backing directory, while it is being made and linked.
    pub fresh: Option<String>,
    /// The copy of the seed data.
    pub merger: Merger,
}

pub struct ReconcilerView {
    pub target: Seq<char>,
    pub root: Seq<char>,
    pub link: LinkView,
    pub phase: Phase,
    pub changed: bool,
    pub fresh: Option<Seq<char>>,
    pub merger: MergerView,
}

impl View for Reconciler {
    type V = ReconcilerView;

    open spec fn view(&self) -> ReconcilerView {
        ReconcilerView {
            target: self.target@,
            root: self.root@,
            link: self.link@,
            phase: self.phase,
            changed: self.changed,
            fresh: text_view(self.fresh),
            merger: self.merger@,
        }
    }
}

/// Where what is in the way of a link is moved to: `<target>.old`.
pub open spec fn backup_path(target: Seq<char>) -> Seq<char> {
    target + seq!['.', 'o', 'l', 'd']
}

/// The backing directory named after a target: `<root>/<name>`.
pub open spec fn named_backing(root: Seq<char>, name: Seq<char>) -> Seq<char> {
    root + seq!['/'] + name
}

/// The reconciliation of an entry before its first event.
pub open spec fn begun(target: Seq<char>, link: LinkView, root: Seq<char>) -> ReconcilerView {
    ReconcilerView {
        target,
        root,
        link,
        phase: Phase::Inspecting,
        changed: false,
        fresh: None,
        merger: merge_idle(),
    }
}

/// The entry is reconciled.
pub open spec fn settle(s: ReconcilerView) -> (ReconcilerView, StepView) {
    (ReconcilerView { phase: Phase::Settled, ..s }, StepView::Done { changed: s.changed })
}

/// The reconciliation cannot go on.
pub open spec fn fail(s: ReconcilerView, reason: Failure) -> (ReconcilerView, StepView) {
    (ReconcilerView { phase: Phase::Failed, ..s }, StepView::Failed(reason))
}

/// The last part: where seed data and a backing directory are both recorded,
/// the seed data is copied; else the entry is reconciled.
pub open spec fn seed(s: ReconcilerView) -> (ReconcilerView, StepView) {
    match (s.link.data, s.link.source) {
        (Some(data), Some(backing)) => (
            ReconcilerView { phase: Phase::Seeding, merger: merge_begun(data, backing), ..s },
            StepView::Ask(RequestView::List { dir: data }),
        ),
        _ => settle(s),
    }
}

/// A new backing directory at `path` is made.
pub open spec fn make(s: ReconcilerView, path: Seq<char>) -> (ReconcilerView, StepView) {
    (
        ReconcilerView { phase: Phase::MakingBacking, fresh: Some(path), ..s },
        StepView::Ask(RequestView::CreateDir { path }),
    )
}

/// A new backing directory is chosen: the one named after the target, or,
/// for a target without a name, one that the driver finds free.
pub open spec fn allocate(s: ReconcilerView) -> (ReconcilerView, StepView) {
    match file_name_of(s.target) {
        Some(name) => make(s, named_backing(s.root, name)),
        None => (
            ReconcilerView { phase: Phase::Allocating, ..s },
            StepView::Ask(RequestView::Allocate { root: s.root }),
        ),
    }
}

/// The target is free to be linked: a recorded backing directory is looked
/// for first, and with none recorded a new one is chosen.
pub open spec fn relink(s: ReconcilerView) -> (ReconcilerView, StepView) {
    match s.link.source {
        Some(backing) => (
            ReconcilerView { phase: Phase::ProbingBacking, ..s },
            StepView::Ask(RequestView::Probe { path: backing }),
        ),
        None => allocate(s),
    }
}

/// The seed data is copied: a relative path to it is resolved, so that the
/// record no longer depends on the working directory.
pub open spec fn after_merge(s: ReconcilerView) -> (ReconcilerView, StepView) {
    match s.link.data {
        Some(data) => if is_absolute_path(data) {
            settle(s)
        } else {
            (
                ReconcilerView { phase: Phase::Resolving, ..s },
                StepView::Ask(RequestView::Resolve { path: data }),
            )
        },
        None => settle(s),
    }
}

/// What the reconciliation of an entry does on an event.
pub open spec fn reconcile_step(s: ReconcilerView, event: EventView) -> (ReconcilerView, StepView) {
    match (s.phase, event) {
        (Phase::Inspecting, EventView::Target(TargetStateView::Missing)) => relink(s),
        (Phase::Inspecting, EventView::Target(TargetStateView::Link(dest))) => match s.link.source {
            Some(backing) => if dest != backing {
                (
                    ReconcilerView { phase: Phase::Unlinking, ..s },
                    StepView::Ask(RequestView::RemoveLink { path: s.target }),
                )
            } else {
                seed(s)
            },
            None => seed(s),
        },
        (Phase::Inspecting, EventView::Target(TargetStateView::Other)) => (
            ReconcilerView { phase: Phase::BackingUp, ..s },
            StepView::Ask(RequestView::Rename { from: s.target, to: backup_path(s.target) }),
        ),
        (Phase::Unlinking, EventView::Done) => relink(s),
        (Phase::BackingUp, EventView::Done) => relink(s),
        (Phase::ProbingBacking, EventView::Exists(present)) => match s.link.source {
            Some(backing) => if present {
                (
                    ReconcilerView { phase: Phase::Reusing, ..s },
                    StepView::Ask(RequestView::Symlink { source: backing, target: s.target }),
                )
            } else {
                allocate(ReconcilerView { link: LinkView { source: None, ..s.link }, ..s })
            },
            None => fail(s, Failure::UnexpectedEvent),
        },
        (Phase::Reusing, EventView::Done) => seed(s),
        (Phase::Allocating, EventView::Allocated(Some(path))) => make(s, path),
        (Phase::Allocating, EventView::Allocated(None)) => fail(s, Failure::NamesExhausted),
        (Phase::MakingBacking, EventView::Done) => match s.fresh {
            Some(path) => (
                ReconcilerView { phase: Phase::LinkingFresh, changed: true, ..s },
                StepView::Ask(RequestView::Symlink { source: path, target: s.target }),
            ),
            None => fail(s, Failure::UnexpectedEvent),
        },
        (Phase::LinkingFresh, EventView::Done) => match s.fresh {
            Some(path) => seed(
                ReconcilerView {
                    link: LinkView { source: Some(path), ..s.link },
                    fresh: None,
                    ..s
                },
            ),
            None => fail(s, Failure::UnexpectedEvent),
        },
        (Phase::Seeding, _) => {
            let (merger, step) = merge_step(s.merger, event);
            let copying = ReconcilerView { merger, ..s };
            match step {
                MergeStepView::Ask(request) => (copying, StepView::Ask(request)),
                MergeStepView::Complete => after_merge(copying),
                MergeStepView::Rejected => fail(copying, Failure::UnexpectedEvent),
            }
        },
        (Phase::Resolving, EventView::Resolved(path)) => settle(
            ReconcilerView { link: LinkView { data: Some(path), ..s.link }, ..s },
        ),
        _ => fail(s, Failure::UnexpectedEvent),
    }
}

impl Reconciler {
    /// Begins the reconciliation of `target`, for which `link` is recorded,
    /// with `root` as the storage root: the reconciliation to step from here
    /// on, and its first request, a look at the target.
    pub fn begin(target: &str, link: LinkDirectory, root: &str) -> (r: (Reconciler, Request))
        ensures
            r.0@ == begun(target@, link@, root@),
            r.1@ == (RequestView::Inspect { path: target@ }),
    {
        let rec = Reconciler {
            target: target.to_owned(),
            root: root.to_owned(),
            link,
            phase: Phase::Inspecting,
            changed: false,
            fresh: None,
            merger: Merger::idle(),
        };
        (rec, Request::Inspect { path: target.to_owned() })
    }

    fn settle(self) -> (r: (Reconciler, Step))
        ensures
            (r.0@, r.1@) == settle(self@),
    {
        let changed = self.changed;
        (Reconciler { phase: Phase::Settled, ..self }, Step::Done { changed })
    }

    fn fail(self, reason: Failure) -> (r: (Reconciler, Step))
        ensures
            (r.0@, r.1@) == fail(self@, reason),
    {
        (Reconciler { phase: Phase::Failed, ..self }, Step::Failed(reason))
    }

    fn seed(self) -> (r: (Reconciler, Step))
        ensures
            (r.0@, r.1@) == seed(self@),
    {
        match (&self.link.data, &self.link.source) {
            (Some(data), Some(backing)) => {
                let (merger, first) = copy_all(data.as_str(), backing.as_str());
                (Reconciler { phase: Phase::Seeding, merger, ..self }, Step::Ask(first))
            },
            _ => self.settle(),
        }
    }

    fn make(self, path: String) -> (r: (Reconciler, Step))
        ensures
            (r.0@, r.1@) == make(self@, path@),
    {
        let fresh = Some(path.clone());
        (
            Reconciler { phase: Phase::MakingBacking, fresh, ..self },
            Step::Ask(Request::CreateDir { path }),
        )
    }

    fn allocate(self) -> (r: (Reconciler, Step))
        ensures
            (r.0@, r.1@) == allocate(self@),
    {
        match file_name(self.target.as_str()) {
            Some(name) => {
                let path = self.root.clone().concat("/").concat(name.as_str());
                proof {
                    reveal_strlit("/");
                    assert("/"@ =~= seq!['/']);
                }
                self.make(path)
            },
            None => {
                let root = self.root.clone();
                (Reconciler { phase: Phase::Allocating, ..self }, Step::Ask(Request::Allocate { root }))
            },
        }
    }

    fn relink(self) -> (r: (Reconciler, Step))
        ensures
            (r.0@, r.1@) == relink(self@),
    {
        match &self.link.source {
            Some(backing) => {
                let path = backing.clone();
                (Reconciler { phase: Phase::ProbingBacking, ..self }, Step::Ask(Request::Probe { path }))
            },
            None => self.allocate(),
        }
    }

    fn after_merge(self) -> (r: (Reconciler, Step))
        ensures
            (r.0@, r.1@) == after_merge(self@),
    {
        match &self.link.data {
            Some(data) => {
                if is_absolute(data.as_str()) {
                    self.settle()
                } else {
                    let path = data.clone();
                    (
                        Reconciler { phase: Phase::Resolving, ..self },
                        Step::Ask(Request::Resolve { path }),
                    )
                }
            },
            None => self.settle(),
        }
    }

    fn inspected(self, found: TargetState) -> (r: (Reconciler, Step))
        requires
            self.phase == Phase::Inspecting,
        ensures
            (r.0@, r.1@) == reconcile_step(self@, EventView::Target(found@)),
    {
        match found {
            TargetState::Missing => self.relink(),
            TargetState::Link(dest) => {
                let stale = match &self.link.source {
                    Some(backing) => dest != *backing,
                    None => false,
                };
                if stale {
                    let path = self.target.clone();
                    (
                        Reconciler { phase: Phase::Unlinking, ..self },
                        Step::Ask(Request::RemoveLink { path }),
                    )
                } else {
                    self.seed()
                }
            },
            TargetState::Other => {
                let from = self.target.clone();
                let to = self.target.clone().concat(".old");
                proof {
                    reveal_strlit(".old");
                    assert(".old"@ =~= seq!['.', 'o', 'l', 'd']);
                }
                (Reconciler { phase: Phase::BackingUp, ..self }, Step::Ask(Request::Rename { from, to }))
            },
        }
    }

    fn probed(self, present: bool) -> (r: (Reconciler, Step))
        requires
            self.phase == Phase::ProbingBacking,
        ensures
            (r.0@, r.1@) == reconcile_step(self@, EventView::Exists(present)),
    {
        match &self.link.source {
            Some(backing) => {
                if present {
                    let source = backing.clone();
                    let target = self.target.clone();
                    (
                        Reconciler { phase: Phase::Reusing, ..self },
                        Step::Ask(Request::Symlink { source, target }),
                    )
                } else {
                    let link = LinkDirectory { data: copy_text(&self.link.data), source: None };
                    Reconciler { link, ..self }.allocate()
                }
            },
            None => self.fail(Failure::UnexpectedEvent),
        }
    }

    fn made(self) -> (r: (Reconciler, Step))
        requires
            self.phase == Phase::MakingBacking,
        ensures
            (r.0@, r.1@) == reconcile_step(self@, EventView::Done),
    {
        match &self.fresh {
            Some(path) => {
                let source = path.clone();
                let target = self.target.clone();
                (
                    Reconciler { phase: Phase::LinkingFresh, changed: true, ..self },
                    Step::Ask(Request::Symlink { source, target }),
                )
            },
            None => self.fail(Failure::UnexpectedEvent),
        }
    }

    fn linked(self) -> (r: (Reconciler, Step))
        requires
            self.phase == Phase::LinkingFresh,
        ensures
            (r.0@, r.1@) == reconcile_step(self@, EventView::Done),
    {
        match &self.fresh {
            Some(path) => {
                let link = LinkDirectory {
                    data: copy_text(&self.link.data),
                    source: Some(path.clone()),
                };
                Reconciler { link, fresh: None, ..self }.seed()
            },
            None => self.fail(Failure::UnexpectedEvent),
        }
    }

    fn copying(self, event: Event) -> (r: (Reconciler, Step))
        requires
            self.phase == Phase::Seeding,
        ensures
            (r.0@, r.1@) == reconcile_step(self@, event@),
    {
        let Reconciler { target, root, link, phase, changed, fresh, merger } = self;
        let (merger, step) = merger.step(event);
        let copying = Reconciler { target, root, link, phase, changed, fresh, merger };
        match step {
            MergeStep::Ask(request) => (copying, Step::Ask(request)),
            MergeStep::Complete => copying.after_merge(),
            MergeStep::Rejected => copying.fail(Failure::UnexpectedEvent),
        }
    }

    /// Takes the answer to the last request and says what comes next.
    pub fn step(self, event: Event) -> (r: (Reconciler, Step))
        ensures
            (r.0@, r.1@) == reconcile_step(self@, event@),
    {
        match self.phase {
            Phase::Inspecting => match event {
                Event::Target(found) => self.inspected(found),
                _ => self.fail(Failure::UnexpectedEvent),
            },
            Phase::Unlinking | Phase::BackingUp => match event {
                Event::Done => self.relink(),
                _ => self.fail(Failure::UnexpectedEvent),
            },
            Phase::ProbingBacking => match event {
                Event::Exists(present) => self.probed(present),
                _ => self.fail(Failure::UnexpectedEvent),
            },
            Phase::Reusing => match event {
                Event::Done => self.seed(),
                _ => self.fail(Failure::UnexpectedEvent),
            },
            Phase::Allocating => match event {
                Event::Allocated(Some(path)) => self.make(path),
                Event::Allocated(None) => self.fail(Failure::NamesExhausted),
                _ => self.fail(Failure::UnexpectedEvent),
            },
            Phase::MakingBacking => match event {
                Event::Done => self.made(),
                _ => self.fail(Failure::UnexpectedEvent),
            },
            Phase::LinkingFresh => match event {
                Event::Done => self.linked(),
                _ => self.fail(Failure::UnexpectedEvent),
            },
            Phase::Seeding => self.copying(event),
            Phase::Resolving => match event {
                Event::Resolved(path) => {
                    let link = LinkDirectory {
                        data: Some(path),
                        source: copy_text(&self.link.source),
                    };
                    Reconciler { link, ..self }.settle()
                },
                _ => self.fail(Failure::UnexpectedEvent),
            },
            Phase::Settled | Phase::Failed => self.fail(Failure::UnexpectedEvent),
        }
    }
}

} // verus!
