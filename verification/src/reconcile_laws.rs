//! What holds of the reconciliation of every entry.

use crate::merge_laws::merge_only_adds;
use crate::path::file_name_of;
use crate::protocol::{EventView, RequestView, StepView, TargetStateView};
use crate::reconcile::{
    backup_path, begun, named_backing, reconcile_step, Phase, ReconcilerView,
};
use crate::registry::LinkView;
use vstd::prelude::*;

verus! {

/// The replies of a reconciliation to a run of events, and where it stands
/// after them.
pub open spec fn run(s: ReconcilerView, events: Seq<EventView>) -> (ReconcilerView, Seq<StepView>)
    decreases events.len(),
{
    if events.len() == 0 {
        (s, Seq::empty())
    } else {
        let (mid, steps) = run(s, events.drop_last());
        let (end, step) = reconcile_step(mid, events.last());
        (end, steps.push(step))
    }
}

/// The reply that ends the linking of an entry: the listing of the seed
/// data where there is any, and else the end of the reconciliation.
pub open spec fn closing_step(link: LinkView, changed: bool) -> StepView {
    match (link.data, link.source) {
        (Some(data), Some(_)) => StepView::Ask(RequestView::List { dir: data }),
        _ => StepView::Done { changed },
    }
}

proof fn lemma_run_push(s: ReconcilerView, events: Seq<EventView>, event: EventView)
    ensures
        run(s, events.push(event)) == ({
            let (mid, steps) = run(s, events);
            let (end, step) = reconcile_step(mid, event);
            (end, steps.push(step))
        }),
{
    assert(events.push(event).drop_last() =~= events);
}

/// A target that is a link to the recorded backing directory is left as it
/// is: nothing is removed, renamed, created or linked, the record stays as
/// it was, and no change is reported. Without seed data the entry is
/// reconciled at once; with seed data the copy begins.
pub proof fn correct_link_is_left_alone(
    target: Seq<char>,
    link: LinkView,
    root: Seq<char>,
    dest: Seq<char>,
)
    requires
        link.source == Some(dest),
    ensures
        ({
            let (end, step) = reconcile_step(
                begun(target, link, root),
                EventView::Target(TargetStateView::Link(dest)),
            );
            &&& end.link == link
            &&& !end.changed
            &&& step == closing_step(link, false)
            &&& link.data is None ==> step == (StepView::Done { changed: false })
            &&& step matches StepView::Ask(request) ==> !request.mutates()
        }),
{
}

/// A link at a target for which no backing directory is recorded is left as
/// it is, and the entry is reconciled at once.
pub proof fn unrecorded_link_is_left_alone(
    target: Seq<char>,
    link: LinkView,
    root: Seq<char>,
    dest: Seq<char>,
)
    requires
        link.source is None,
    ensures
        reconcile_step(
            begun(target, link, root),
            EventView::Target(TargetStateView::Link(dest)),
        ).1 == (StepView::Done { changed: false }),
        reconcile_step(
            begun(target, link, root),
            EventView::Target(TargetStateView::Link(dest)),
        ).0.link == link,
{
}

/// A target that is an ordinary directory, with no backing directory
/// recorded: the directory is renamed to `<target>.old`, a backing directory
/// named after the target is created under the storage root, the target is
/// linked to it, the new directory is recorded, and a change is reported.
pub proof fn ordinary_target_is_moved_aside(
    target: Seq<char>,
    link: LinkView,
    root: Seq<char>,
    name: Seq<char>,
)
    requires
        link.source is None,
        file_name_of(target) == Some(name),
    ensures
        ({
            let backing = named_backing(root, name);
            let (end, steps) = run(
                begun(target, link, root),
                seq![
                    EventView::Target(TargetStateView::Other),
                    EventView::Done,
                    EventView::Done,
                    EventView::Done,
                ],
            );
            &&& steps == seq![
                StepView::Ask(RequestView::Rename { from: target, to: backup_path(target) }),
                StepView::Ask(RequestView::CreateDir { path: backing }),
                StepView::Ask(RequestView::Symlink { source: backing, target }),
                closing_step(LinkView { source: Some(backing), ..link }, true),
            ]
            &&& end.link == (LinkView { source: Some(backing), ..link })
            &&& end.changed
        }),
{
    let backing = named_backing(root, name);
    let s0 = begun(target, link, root);
    let none = Seq::<EventView>::empty();
    lemma_run_push(s0, none, EventView::Target(TargetStateView::Other));
    let e1 = none.push(EventView::Target(TargetStateView::Other));
    lemma_run_push(s0, e1, EventView::Done);
    let e2 = e1.push(EventView::Done);
    lemma_run_push(s0, e2, EventView::Done);
    let e3 = e2.push(EventView::Done);
    lemma_run_push(s0, e3, EventView::Done);
    let e4 = e3.push(EventView::Done);
    assert(seq![EventView::Target(TargetStateView::Other), EventView::Done, EventView::Done, EventView::Done] =~= e4);
    assert(run(s0, e4).1 =~= seq![
        StepView::Ask(RequestView::Rename { from: target, to: backup_path(target) }),
        StepView::Ask(RequestView::CreateDir { path: backing }),
        StepView::Ask(RequestView::Symlink { source: backing, target }),
        closing_step(LinkView { source: Some(backing), ..link }, true),
    ]);
}

/// A target that is an ordinary directory, with a backing directory
/// recorded that exists: the directory is renamed to `<target>.old` and the
/// target is linked to the recorded directory. Nothing is created, and no
/// change is reported.
pub proof fn ordinary_target_takes_its_backing(
    target: Seq<char>,
    link: LinkView,
    root: Seq<char>,
    backing: Seq<char>,
)
    requires
        link.source == Some(backing),
    ensures
        ({
            let (end, steps) = run(
                begun(target, link, root),
                seq![
                    EventView::Target(TargetStateView::Other),
                    EventView::Done,
                    EventView::Exists(true),
                    EventView::Done,
                ],
            );
            &&& steps == seq![
                StepView::Ask(RequestView::Rename { from: target, to: backup_path(target) }),
                StepView::Ask(RequestView::Probe { path: backing }),
                StepView::Ask(RequestView::Symlink { source: backing, target }),
                closing_step(link, false),
            ]
            &&& end.link == link
            &&& !end.changed
        }),
{
    let s0 = begun(target, link, root);
    let none = Seq::<EventView>::empty();
    lemma_run_push(s0, none, EventView::Target(TargetStateView::Other));
    let e1 = none.push(EventView::Target(TargetStateView::Other));
    lemma_run_push(s0, e1, EventView::Done);
    let e2 = e1.push(EventView::Done);
    lemma_run_push(s0, e2, EventView::Exists(true));
    let e3 = e2.push(EventView::Exists(true));
    lemma_run_push(s0, e3, EventView::Done);
    let e4 = e3.push(EventView::Done);
    assert(seq![EventView::Target(TargetStateView::Other), EventView::Done, EventView::Exists(true), EventView::Done] =~= e4);
    assert(run(s0, e4).1 =~= seq![
        StepView::Ask(RequestView::Rename { from: target, to: backup_path(target) }),
        StepView::Ask(RequestView::Probe { path: backing }),
        StepView::Ask(RequestView::Symlink { source: backing, target }),
        closing_step(link, false),
    ]);
}

/// A target that is a link to another place than the recorded backing
/// directory, which exists: the link is removed, and the target is linked to
/// the recorded directory. What the old link pointed to is named in no
/// request, and no change is reported.
pub proof fn stale_link_is_replaced(
    target: Seq<char>,
    link: LinkView,
    root: Seq<char>,
    backing: Seq<char>,
    dest: Seq<char>,
)
    requires
        link.source == Some(backing),
        dest != backing,
    ensures
        ({
            let (end, steps) = run(
                begun(target, link, root),
                seq![
                    EventView::Target(TargetStateView::Link(dest)),
                    EventView::Done,
                    EventView::Exists(true),
                    EventView::Done,
                ],
            );
            &&& steps == seq![
                StepView::Ask(RequestView::RemoveLink { path: target }),
                StepView::Ask(RequestView::Probe { path: backing }),
                StepView::Ask(RequestView::Symlink { source: backing, target }),
                closing_step(link, false),
            ]
            &&& end.link == link
            &&& !end.changed
        }),
{
    let s0 = begun(target, link, root);
    let none = Seq::<EventView>::empty();
    lemma_run_push(s0, none, EventView::Target(TargetStateView::Link(dest)));
    let e1 = none.push(EventView::Target(TargetStateView::Link(dest)));
    lemma_run_push(s0, e1, EventView::Done);
    let e2 = e1.push(EventView::Done);
    lemma_run_push(s0, e2, EventView::Exists(true));
    let e3 = e2.push(EventView::Exists(true));
    lemma_run_push(s0, e3, EventView::Done);
    let e4 = e3.push(EventView::Done);
    assert(seq![EventView::Target(TargetStateView::Link(dest)), EventView::Done, EventView::Exists(true), EventView::Done] =~= e4);
    assert(run(s0, e4).1 =~= seq![
        StepView::Ask(RequestView::RemoveLink { path: target }),
        StepView::Ask(RequestView::Probe { path: backing }),
        StepView::Ask(RequestView::Symlink { source: backing, target }),
        closing_step(link, false),
    ]);
}

/// A target that is a link to another place than the recorded backing
/// directory, which is gone: the link is removed, the record is taken for
/// unset, and a backing directory named after the target is created, linked
/// and recorded. A change is reported.
pub proof fn stale_link_with_lost_backing_is_replaced(
    target: Seq<char>,
    link: LinkView,
    root: Seq<char>,
    backing: Seq<char>,
    dest: Seq<char>,
    name: Seq<char>,
)
    requires
        link.source == Some(backing),
        dest != backing,
        file_name_of(target) == Some(name),
    ensures
        ({
            let fresh = named_backing(root, name);
            let (end, steps) = run(
                begun(target, link, root),
                seq![
                    EventView::Target(TargetStateView::Link(dest)),
                    EventView::Done,
                    EventView::Exists(false),
                    EventView::Done,
                    EventView::Done,
                ],
            );
            &&& steps == seq![
                StepView::Ask(RequestView::RemoveLink { path: target }),
                StepView::Ask(RequestView::Probe { path: backing }),
                StepView::Ask(RequestView::CreateDir { path: fresh }),
                StepView::Ask(RequestView::Symlink { source: fresh, target }),
                closing_step(LinkView { source: Some(fresh), ..link }, true),
            ]
            &&& end.link == (LinkView { source: Some(fresh), ..link })
            &&& end.changed
        }),
{
    let fresh = named_backing(root, name);
    let s0 = begun(target, link, root);
    let none = Seq::<EventView>::empty();
    lemma_run_push(s0, none, EventView::Target(TargetStateView::Link(dest)));
    let e1 = none.push(EventView::Target(TargetStateView::Link(dest)));
    lemma_run_push(s0, e1, EventView::Done);
    let e2 = e1.push(EventView::Done);
    lemma_run_push(s0, e2, EventView::Exists(false));
    let e3 = e2.push(EventView::Exists(false));
    lemma_run_push(s0, e3, EventView::Done);
    let e4 = e3.push(EventView::Done);
    lemma_run_push(s0, e4, EventView::Done);
    let e5 = e4.push(EventView::Done);
    assert(seq![EventView::Target(TargetStateView::Link(dest)), EventView::Done, EventView::Exists(false), EventView::Done, EventView::Done] =~= e5);
    assert(run(s0, e5).1 =~= seq![
        StepView::Ask(RequestView::RemoveLink { path: target }),
        StepView::Ask(RequestView::Probe { path: backing }),
        StepView::Ask(RequestView::CreateDir { path: fresh }),
        StepView::Ask(RequestView::Symlink { source: fresh, target }),
        closing_step(LinkView { source: Some(fresh), ..link }, true),
    ]);
}

/// A target at which nothing is, with no backing directory recorded: a
/// backing directory named after the target is created, linked and recorded,
/// and a change is reported.
pub proof fn missing_target_is_linked(
    target: Seq<char>,
    link: LinkView,
    root: Seq<char>,
    name: Seq<char>,
)
    requires
        link.source is None,
        file_name_of(target) == Some(name),
    ensures
        ({
            let backing = named_backing(root, name);
            let (end, steps) = run(
                begun(target, link, root),
                seq![EventView::Target(TargetStateView::Missing), EventView::Done, EventView::Done],
            );
            &&& steps == seq![
                StepView::Ask(RequestView::CreateDir { path: backing }),
                StepView::Ask(RequestView::Symlink { source: backing, target }),
                closing_step(LinkView { source: Some(backing), ..link }, true),
            ]
            &&& end.link == (LinkView { source: Some(backing), ..link })
            &&& end.changed
        }),
{
    let backing = named_backing(root, name);
    let s0 = begun(target, link, root);
    let none = Seq::<EventView>::empty();
    lemma_run_push(s0, none, EventView::Target(TargetStateView::Missing));
    let e1 = none.push(EventView::Target(TargetStateView::Missing));
    lemma_run_push(s0, e1, EventView::Done);
    let e2 = e1.push(EventView::Done);
    lemma_run_push(s0, e2, EventView::Done);
    let e3 = e2.push(EventView::Done);
    assert(seq![EventView::Target(TargetStateView::Missing), EventView::Done, EventView::Done] =~= e3);
    assert(run(s0, e3).1 =~= seq![
        StepView::Ask(RequestView::CreateDir { path: backing }),
        StepView::Ask(RequestView::Symlink { source: backing, target }),
        closing_step(LinkView { source: Some(backing), ..link }, true),
    ]);
}

/// Whatever the state and the event: the one thing that is ever renamed is
/// the target, to `<target>.old`, and only when it was found to be no link.
pub proof fn only_the_target_is_renamed(s: ReconcilerView, event: EventView)
    ensures
        reconcile_step(s, event).1 matches StepView::Ask(RequestView::Rename { from, to }) ==> {
            &&& from == s.target
            &&& to == backup_path(s.target)
            &&& s.phase == Phase::Inspecting
            &&& event == EventView::Target(TargetStateView::Other)
        },
{
    merge_only_adds(s.merger, event);
}

/// Whatever the state and the event: the one thing that is ever removed is
/// a link at the target, and only when it was found to point to another
/// place than the recorded backing directory.
pub proof fn only_a_stale_link_is_removed(s: ReconcilerView, event: EventView)
    ensures
        reconcile_step(s, event).1 matches StepView::Ask(RequestView::RemoveLink { path }) ==> {
            &&& path == s.target
            &&& s.phase == Phase::Inspecting
            &&& event matches EventView::Target(TargetStateView::Link(dest))
            &&& s.link.source matches Some(backing)
            &&& dest != backing
        },
{
    merge_only_adds(s.merger, event);
}

/// Whatever the state and the event: a change is first reported only when a
/// new backing directory was created, and what is reported stays reported.
pub proof fn change_means_allocation(s: ReconcilerView, event: EventView)
    ensures
        s.changed ==> reconcile_step(s, event).0.changed,
        !s.changed && reconcile_step(s, event).0.changed ==> s.phase == Phase::MakingBacking
            && event == EventView::Done,
{
}

/// Whatever the state and the event: the recorded backing directory changes
/// only when the recorded one is found gone, which unsets it, or when a new
/// one is linked, which records it.
pub proof fn backing_changes_with_the_link(s: ReconcilerView, event: EventView)
    ensures
        reconcile_step(s, event).0.link.source != s.link.source ==> {
            ||| s.phase == Phase::ProbingBacking && event == EventView::Exists(false)
                && reconcile_step(s, event).0.link.source is None
            ||| s.phase == Phase::LinkingFresh && event == EventView::Done && reconcile_step(
                s,
                event,
            ).0.link.source == s.fresh
        },
{
}

} // verus!
