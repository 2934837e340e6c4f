//! A pass over the registry: every entry is reconciled, one after the
//! other, and at the end every relative target is replaced by its home key.
//!
//! The pass is driven from outside. It begins with `Event::Begin`; each call
//! of `Config::apply` takes the answer to the request handed out before and
//! hands out the next, until it says `Step::Done` or `Step::Failed`. A
//! driver that cannot do what a request says stops there: what was done for
//! earlier entries stays done, and nothing is rolled back.

use crate::protocol::{Event, EventView, Failure, Request, RequestView, Step, StepView};
use crate::reconcile::{begun, reconcile_step, Reconciler, ReconcilerView};
use crate::registry::{rekeyed, Config, ConfigView, LinkDirectory};
use vstd::prelude::*;

verus! {

/// Where a pass stands.
#[derive(Clone, Copy, Debug, PartialEq, Eq, Structural)]
pub enum Stage {
    /// Nothing was asked yet.
    Idle,
    /// Does the storage root exist?
    ProbingRoot,
    /// The creation of the storage root.
    MakingRoot,
    /// An entry is being reconciled.
    Reconciling,
    /// Every entry is reconciled and the targets are rekeyed.
    Finished,
    /// The pass cannot go on.
    Failed,
}

/// A pass over the registry.
#[derive(Clone, Debug, PartialEq, Eq)]
pub struct Pass {
    /// The working directory that relative targets are seen from.
    pub cwd: String,
    /// Where the pass stands.
    pub stage: Stage,
    /// The place of the entry that is being reconciled.
    pub index: usize,
    /// Whether a backing directory was newly allocated so far.
    pub changed: bool,
    /// The reconciliation of the entry at `index`.
    pub current: Option<Reconciler>,
}

pub struct PassView {
    pub cwd: Seq<char>,
    pub stage: Stage,
    pub index: nat,
    pub changed: bool,
    pub current: Option<ReconcilerView>,
}

impl View for Pass {
    type V = PassView;

    open spec fn view(&self) -> PassView {
        PassView {
            cwd: self.cwd@,
            stage: self.stage,
            index: self.index as nat,
            changed: self.changed,
            current: match self.current {
                Some(rec) => Some(rec@),
                None => None,
            },
        }
    }
}

/// A pass before its first event.
pub open spec fn pass_begun(cwd: Seq<char>) -> PassView {
    PassView { cwd, stage: Stage::Idle, index: 0, changed: false, current: None }
}

/// The pass turns to the entry at place `i`. Behind the last entry the
/// targets are rekeyed and the pass is finished.
pub open spec fn open_entry(cfg: ConfigView, p: PassView, i: nat) -> (ConfigView, PassView, StepView) {
    if i < cfg.entries.len() {
        let (target, link) = cfg.entries[i as int];
        (
            cfg,
            PassView {
                stage: Stage::Reconciling,
                index: i,
                current: Some(begun(target, link, cfg.shm_path)),
                ..p
            },
            StepView::Ask(RequestView::Inspect { path: target }),
        )
    } else {
        (
            ConfigView { entries: rekeyed(cfg.entries, p.cwd), ..cfg },
            PassView { stage: Stage::Finished, index: i, current: None, ..p },
            StepView::Done { changed: p.changed },
        )
    }
}

/// The pass cannot go on.
pub open spec fn pass_failed(cfg: ConfigView, p: PassView, reason: Failure) -> (
    ConfigView,
    PassView,
    StepView,
) {
    (cfg, PassView { stage: Stage::Failed, current: None, ..p }, StepView::Failed(reason))
}

/// What a pass does on an event.
pub open spec fn apply_step(cfg: ConfigView, p: PassView, event: EventView) -> (
    ConfigView,
    PassView,
    StepView,
) {
    match (p.stage, event) {
        (Stage::Idle, EventView::Begin) => (
            cfg,
            PassView { stage: Stage::ProbingRoot, ..p },
            StepView::Ask(RequestView::Probe { path: cfg.shm_path }),
        ),
        (Stage::ProbingRoot, EventView::Exists(present)) => if present {
            open_entry(cfg, p, 0)
        } else {
            (
                cfg,
                PassView { stage: Stage::MakingRoot, ..p },
                StepView::Ask(RequestView::CreateDir { path: cfg.shm_path }),
            )
        },
        (Stage::MakingRoot, EventView::Done) => open_entry(cfg, p, 0),
        (Stage::Reconciling, _) => match p.current {
            Some(rec) => if p.index < cfg.entries.len() {
                let (next, step) = reconcile_step(rec, event);
                match step {
                    StepView::Ask(request) => (
                        cfg,
                        PassView { current: Some(next), ..p },
                        StepView::Ask(request),
                    ),
                    StepView::Done { changed } => open_entry(
                        ConfigView {
                            entries: cfg.entries.update(
                                p.index as int,
                                (cfg.entries[p.index as int].0, next.link),
                            ),
                            ..cfg
                        },
                        PassView { changed: p.changed || changed, ..p },
                        p.index + 1,
                    ),
                    StepView::Failed(reason) => pass_failed(cfg, p, reason),
                }
            } else {
                pass_failed(cfg, p, Failure::UnexpectedEvent)
            },
            None => pass_failed(cfg, p, Failure::UnexpectedEvent),
        },
        _ => pass_failed(cfg, p, Failure::UnexpectedEvent),
    }
}

impl Pass {
    /// A pass that is to begin, with `cwd` as the working directory that
    /// relative targets are seen from. Its first event is `Event::Begin`.
    pub fn new(cwd: &str) -> (p: Pass)
        ensures
            p@ == pass_begun(cwd@),
    {
        Pass { cwd: cwd.to_owned(), stage: Stage::Idle, index: 0, changed: false, current: None }
    }

    fn failed(self, reason: Failure) -> (r: (Pass, Step))
        ensures
            r.0@ == (PassView { stage: Stage::Failed, current: None, ..self@ }),
            r.1@ == StepView::Failed(reason),
    {
        (
            Pass {
                cwd: self.cwd,
                stage: Stage::Failed,
                index: self.index,
                changed: self.changed,
                current: None,
            },
            Step::Failed(reason),
        )
    }
}

impl Config {
    fn open_entry(&mut self, pass: Pass, i: usize) -> (r: (Pass, Step))
        requires
            old(self).wf(),
        ensures
            final(self).wf(),
            (final(self)@, r.0@, r.1@) == open_entry(old(self)@, pass@, i as nat),
    {
        let Pass { cwd, stage, index, changed, current } = pass;
        if i < self.len() {
            let target = match self.target_at(i) {
                Some(t) => t.clone(),
                None => String::new(),
            };
            let link = match self.link_at(i) {
                Some(l) => l.duplicate(),
                None => LinkDirectory::new(),
            };
            let (rec, first) = Reconciler::begin(target.as_str(), link, self.shm_path().as_str());
            (
                Pass { cwd, stage: Stage::Reconciling, index: i, changed, current: Some(rec) },
                Step::Ask(first),
            )
        } else {
            self.rekey(cwd.as_str());
            (
                Pass { cwd, stage: Stage::Finished, index: i, changed, current: None },
                Step::Done { changed },
            )
        }
    }

    /// Takes the answer to the last request of the pass and says what comes
    /// next. `Step::Done` says whether any entry was given a new backing
    /// directory, so that the registry has to be saved.
    pub fn apply(&mut self, pass: Pass, event: Event) -> (r: (Pass, Step))
        requires
            old(self).wf(),
        ensures
            final(self).wf(),
            (final(self)@, r.0@, r.1@) == apply_step(old(self)@, pass@, event@),
    {
        let ghost p = pass@;
        let Pass { cwd, stage, index, changed, current } = pass;
        match stage {
            Stage::Idle => match event {
                Event::Begin => {
                    let path = self.shm_path().clone();
                    (
                        Pass { cwd, stage: Stage::ProbingRoot, index, changed, current },
                        Step::Ask(Request::Probe { path }),
                    )
                },
                _ => Pass { cwd, stage, index, changed, current }.failed(Failure::UnexpectedEvent),
            },
            Stage::ProbingRoot => match event {
                Event::Exists(present) => {
                    if present {
                        self.open_entry(Pass { cwd, stage, index, changed, current }, 0)
                    } else {
                        let path = self.shm_path().clone();
                        (
                            Pass { cwd, stage: Stage::MakingRoot, index, changed, current },
                            Step::Ask(Request::CreateDir { path }),
                        )
                    }
                },
                _ => Pass { cwd, stage, index, changed, current }.failed(Failure::UnexpectedEvent),
            },
            Stage::MakingRoot => match event {
                Event::Done => {
                    self.open_entry(Pass { cwd, stage, index, changed, current }, 0)
                },
                _ => Pass { cwd, stage, index, changed, current }.failed(Failure::UnexpectedEvent),
            },
            Stage::Reconciling => match current {
                Some(rec) => {
                    if index < self.len() {
                        let (next, step) = rec.step(event);
                        match step {
                            Step::Ask(request) => (
                                Pass { cwd, stage, index, changed, current: Some(next) },
                                Step::Ask(request),
                            ),
                            Step::Done { changed: fresh } => {
                                self.set_link(index, next.link);
                                self.open_entry(
                                    Pass {
                                        cwd,
                                        stage,
                                        index,
                                        changed: changed || fresh,
                                        current: None,
                                    },
                                    index + 1,
                                )
                            },
                            Step::Failed(reason) => Pass {
                                cwd,
                                stage,
                                index,
                                changed,
                                current: None,
                            }.failed(reason),
                        }
                    } else {
                        Pass { cwd, stage, index, changed, current: None }.failed(
                            Failure::UnexpectedEvent,
                        )
                    }
                },
                None => Pass { cwd, stage, index, changed, current: None }.failed(
                    Failure::UnexpectedEvent,
                ),
            },
            Stage::Finished | Stage::Failed => Pass { cwd, stage, index, changed, current }.failed(
                Failure::UnexpectedEvent,
            ),
        }
    }
}

} // verus!
