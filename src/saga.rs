use vstd::prelude::*;

verus! {

/// Where a rename stands. Each stage's plan comes from one call:
/// `CreateTarget` from `rename`, `Migrate` from `replace_and_move`,
/// `DestroySource` from `destroy` of the source, `RollBack` from `destroy` of
/// the target.
#[derive(PartialEq, Eq, Structural, Clone, Copy, Debug)]
pub enum RenameStage {
    CreateTarget,
    Migrate,
    DestroySource,
    RollBack,
    Done,
    Failed,
}

/// The stage that follows `stage` once its plan succeeded (`ok`) or failed.
pub open spec fn next_stage(stage: RenameStage, ok: bool) -> RenameStage {
    match stage {
        RenameStage::CreateTarget => if ok {
            RenameStage::Migrate
        } else {
            RenameStage::Failed
        },
        RenameStage::Migrate => if ok {
            RenameStage::DestroySource
        } else {
            RenameStage::RollBack
        },
        RenameStage::DestroySource => if ok {
            RenameStage::Done
        } else {
            RenameStage::Failed
        },
        RenameStage::RollBack => RenameStage::Failed,
        RenameStage::Done => RenameStage::Done,
        RenameStage::Failed => RenameStage::Failed,
    }
}

/// The stages that a rename passes through from `stage` when its plans end
/// with `outcomes`, one after the other.
pub open spec fn stages_after(stage: RenameStage, outcomes: Seq<bool>) -> Seq<RenameStage>
    decreases outcomes.len(),
{
    if outcomes.len() == 0 {
        seq![stage]
    } else {
        seq![stage] + stages_after(next_stage(stage, outcomes[0]), outcomes.drop_first())
    }
}

/// The stage that follows `stage` once its plan succeeded (`ok`) or failed.
/// A failed migration is rolled back by destroying the target; the source
/// is destroyed only after a migration that succeeded.
pub fn rename_next(stage: RenameStage, ok: bool) -> (r: RenameStage)
    ensures
        r == next_stage(stage, ok),
{
    match stage {
        RenameStage::CreateTarget => if ok {
            RenameStage::Migrate
        } else {
            RenameStage::Failed
        },
        RenameStage::Migrate => if ok {
            RenameStage::DestroySource
        } else {
            RenameStage::RollBack
        },
        RenameStage::DestroySource => if ok {
            RenameStage::Done
        } else {
            RenameStage::Failed
        },
        RenameStage::RollBack => RenameStage::Failed,
        RenameStage::Done => RenameStage::Done,
        RenameStage::Failed => RenameStage::Failed,
    }
}

} // verus!
