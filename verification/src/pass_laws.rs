//! What holds of every step of a pass.

use crate::pass::{apply_step, PassView, Stage};
use crate::path::is_absolute_path;
use crate::protocol::{EventView, StepView};
use crate::registry::ConfigView;
use crate::registry_laws::{all_absolute, rekeyed_targets_are_absolute};
use vstd::prelude::*;

verus! {

/// A pass never changes the storage root.
pub proof fn pass_keeps_the_storage_root(cfg: ConfigView, p: PassView, event: EventView)
    ensures
        apply_step(cfg, p, event).0.shm_path == cfg.shm_path,
{
}

/// A pass that fails leaves the registry as it was before the step.
pub proof fn failed_step_keeps_the_registry(cfg: ConfigView, p: PassView, event: EventView)
    ensures
        apply_step(cfg, p, event).2 is Failed ==> apply_step(cfg, p, event).0 == cfg,
{
}

/// While a pass is under way, a step changes no entry but the one that is
/// being reconciled, and of that one only what is recorded, never the
/// target: the entries are reconciled independently of each other.
pub proof fn step_touches_one_entry(cfg: ConfigView, p: PassView, event: EventView)
    ensures
        ({
            let after = apply_step(cfg, p, event);
            after.1.stage != Stage::Finished ==> {
                &&& after.0.entries.len() == cfg.entries.len()
                &&& forall|i: int|
                    0 <= i < cfg.entries.len() ==> (#[trigger] after.0.entries[i]).0
                        == cfg.entries[i].0
                &&& forall|i: int|
                    0 <= i < cfg.entries.len() && i != p.index ==> #[trigger] after.0.entries[i]
                        == cfg.entries[i]
            }
        }),
{
}

/// An entry is written back to the registry only when its reconciliation
/// is complete: a step that asks for more work leaves the registry alone.
pub proof fn asking_step_keeps_the_registry(cfg: ConfigView, p: PassView, event: EventView)
    ensures
        ({
            let after = apply_step(cfg, p, event);
            after.2 is Ask && after.1.index == p.index ==> after.0 == cfg
        }),
{
}

/// What is reported as changed stays reported: a pass says at its end that
/// something changed if any of its entries did.
pub proof fn change_is_kept(cfg: ConfigView, p: PassView, event: EventView)
    ensures
        ({
            let after = apply_step(cfg, p, event);
            &&& p.changed ==> after.1.changed
            &&& after.2 matches StepView::Done { changed } ==> changed == after.1.changed
        }),
{
}

/// A pass that was begun in an absolute working directory ends with every
/// target of the registry absolute.
pub proof fn finished_pass_has_absolute_targets(cfg: ConfigView, p: PassView, event: EventView)
    requires
        is_absolute_path(p.cwd),
    ensures
        ({
            let after = apply_step(cfg, p, event);
            after.1.stage == Stage::Finished ==> all_absolute(after.0.entries) && after.2 is Done
        }),
{
    let after = apply_step(cfg, p, event);
    if after.1.stage == Stage::Finished {
        rekeyed_targets_are_absolute(cfg.entries, p.cwd);
        if p.stage == Stage::Reconciling && p.current is Some && p.index < cfg.entries.len() {
            let next = crate::reconcile::reconcile_step(p.current->0, event).0;
            let written = cfg.entries.update(
                p.index as int,
                (cfg.entries[p.index as int].0, next.link),
            );
            rekeyed_targets_are_absolute(written, p.cwd);
        }
    }
}

} // verus!
