//! The words in which the library and the world outside talk.
//!
//! The library never touches a file system. Where it needs to know or to
//! change something there, it hands out a `Request`; whoever drives it does
//! what the request says and hands back the `Event` that tells how it went.
//! A driver that cannot do what was asked stops: there is no event for a
//! failure.

use vstd::prelude::*;

verus! {

/// What is found at a target path.
#[derive(Clone, Debug, PartialEq, Eq)]
pub enum TargetState {
    /// Nothing that can be reached: no entry, or a link that leads nowhere.
    Missing,
    /// A symbolic link, with the path it points to.
    Link(String),
    /// Something that is no symbolic link: an ordinary directory or file.
    Other,
}

pub enum TargetStateView {
    Missing,
    Link(Seq<char>),
    Other,
}

impl View for TargetState {
    type V = TargetStateView;

    open spec fn view(&self) -> TargetStateView {
        match *self {
            TargetState::Missing => TargetStateView::Missing,
            TargetState::Link(dest) => TargetStateView::Link(dest@),
            TargetState::Other => TargetStateView::Other,
        }
    }
}

/// One entry of a directory, as a listing shows it.
#[derive(Clone, Debug, PartialEq, Eq)]
pub struct DirItem {
    /// The entry's name inside its directory.
    pub name: String,
    /// Whether the entry is itself a directory; a link to one is not.
    pub is_dir: bool,
}

pub struct DirItemView {
    pub name: Seq<char>,
    pub is_dir: bool,
}

impl View for DirItem {
    type V = DirItemView;

    open spec fn view(&self) -> DirItemView {
        DirItemView { name: self.name@, is_dir: self.is_dir }
    }
}

/// The views of the entries of a listing.
pub open spec fn listing_view(items: Seq<DirItem>) -> Seq<DirItemView> {
    items.map_values(|d: DirItem| d@)
}

/// Work for the driver. Every path is handed over as it is to be used.
#[derive(Clone, Debug, PartialEq, Eq)]
pub enum Request {
    /// Does `path` exist, links followed? Answered by `Event::Exists`.
    Probe { path: String },
    /// What is at `path`? Answered by `Event::Target`.
    Inspect { path: String },
    /// Remove the symbolic link at `path`, and not what it points to.
    /// Answered by `Event::Done`.
    RemoveLink { path: String },
    /// Rename `from` to `to`. Answered by `Event::Done`.
    Rename { from: String, to: String },
    /// Create the directory `path` with every parent that is missing; one
    /// that is there already is left alone. Answered by `Event::Done`.
    CreateDir { path: String },
    /// Create at `target` a symbolic link to the directory `source`.
    /// Answered by `Event::Done`.
    Symlink { source: String, target: String },
    /// Find a path under `root` at which nothing exists yet. Answered by
    /// `Event::Allocated`, with `None` when none was found.
    Allocate { root: String },
    /// List the entries of the directory `dir`. Answered by `Event::Listing`.
    List { dir: String },
    /// Copy the file `from` to `to`, over what may be there. Answered by
    /// `Event::Done`.
    CopyFile { from: String, to: String },
    /// Resolve `path` to its absolute form, links followed. Answered by
    /// `Event::Resolved`.
    Resolve { path: String },
}

pub enum RequestView {
    Probe { path: Seq<char> },
    Inspect { path: Seq<char> },
    RemoveLink { path: Seq<char> },
    Rename { from: Seq<char>, to: Seq<char> },
    CreateDir { path: Seq<char> },
    Symlink { source: Seq<char>, target: Seq<char> },
    Allocate { root: Seq<char> },
    List { dir: Seq<char> },
    CopyFile { from: Seq<char>, to: Seq<char> },
    Resolve { path: Seq<char> },
}

impl View for Request {
    type V = RequestView;

    open spec fn view(&self) -> RequestView {
        match *self {
            Request::Probe { path } => RequestView::Probe { path: path@ },
            Request::Inspect { path } => RequestView::Inspect { path: path@ },
            Request::RemoveLink { path } => RequestView::RemoveLink { path: path@ },
            Request::Rename { from, to } => RequestView::Rename { from: from@, to: to@ },
            Request::CreateDir { path } => RequestView::CreateDir { path: path@ },
            Request::Symlink { source, target } => RequestView::Symlink {
                source: source@,
                target: target@,
            },
            Request::Allocate { root } => RequestView::Allocate { root: root@ },
            Request::List { dir } => RequestView::List { dir: dir@ },
            Request::CopyFile { from, to } => RequestView::CopyFile { from: from@, to: to@ },
            Request::Resolve { path } => RequestView::Resolve { path: path@ },
        }
    }
}

impl RequestView {
    /// Whether doing what the request says changes anything on disk.
    pub open spec fn mutates(self) -> bool {
        !(self is Probe || self is Inspect || self is Allocate || self is List || self is Resolve)
    }
}

/// What the driver reports back.
#[derive(Clone, Debug, PartialEq, Eq)]
pub enum Event {
    /// Nothing was asked yet: the event that starts a pass.
    Begin,
    /// The work asked for was done.
    Done,
    /// The answer to `Request::Probe`.
    Exists(bool),
    /// The answer to `Request::Inspect`.
    Target(TargetState),
    /// The answer to `Request::Allocate`.
    Allocated(Option<String>),
    /// The answer to `Request::List`.
    Listing(Vec<DirItem>),
    /// The answer to `Request::Resolve`.
    Resolved(String),
}

pub enum EventView {
    Begin,
    Done,
    Exists(bool),
    Target(TargetStateView),
    Allocated(Option<Seq<char>>),
    Listing(Seq<DirItemView>),
    Resolved(Seq<char>),
}

impl View for Event {
    type V = EventView;

    open spec fn view(&self) -> EventView {
        match *self {
            Event::Begin => EventView::Begin,
            Event::Done => EventView::Done,
            Event::Exists(b) => EventView::Exists(b),
            Event::Target(state) => EventView::Target(state@),
            Event::Allocated(path) => EventView::Allocated(
                match path {
                    Some(p) => Some(p@),
                    None => None,
                },
            ),
            Event::Listing(items) => EventView::Listing(listing_view(items@)),
            Event::Resolved(path) => EventView::Resolved(path@),
        }
    }
}

/// Why a pass cannot go on.
#[derive(Clone, Copy, Debug, PartialEq, Eq, Structural)]
pub enum Failure {
    /// No free name was found for a backing directory: the storage root is
    /// crowded beyond what the search covers. Nothing recovers from this.
    NamesExhausted,
    /// The event is not an answer to the request that was handed out.
    UnexpectedEvent,
}

/// What a machine says after an event.
#[derive(Clone, Debug, PartialEq, Eq)]
pub enum Step {
    /// The driver is to do this and report back.
    Ask(Request),
    /// The work is complete. `changed` says whether a backing directory was
    /// newly allocated, so that the registry has to be saved.
    Done { changed: bool },
    /// The work cannot go on.
    Failed(Failure),
}

pub enum StepView {
    Ask(RequestView),
    Done { changed: bool },
    Failed(Failure),
}

impl View for Step {
    type V = StepView;

    open spec fn view(&self) -> StepView {
        match *self {
            Step::Ask(request) => StepView::Ask(request@),
            Step::Done { changed } => StepView::Done { changed },
            Step::Failed(reason) => StepView::Failed(reason),
        }
    }
}

} // verus!
