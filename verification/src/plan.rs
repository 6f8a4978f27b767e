//! What is done to the disk, written down before it is done.
//!
//! Setting a workspace up and installing a base image both come down to a
//! short list of steps. The functions here make the list; the caller carries
//! the steps out in order and asks `Step::settle` after each whether to go on.
//! All paths are relative to the workspace root.

use vstd::prelude::*;
use crate::layout::{
    skeleton, CIEL_DATA_DIR, CIEL_DIST_DIR, CIEL_INST_DIR, CIEL_VERSION_FILE,
};
use crate::version::CURRENT_CIEL_VERSION_STR;

verus! {

/// What an unpacked entry keeps of what the archive says about it.
#[derive(Debug, Clone, Copy, PartialEq, Eq)]
pub struct UnpackOptions {
    /// The permission bits.
    pub preserve_permissions: bool,
    /// The owner and the group.
    pub preserve_ownerships: bool,
    /// The extended attributes.
    pub unpack_xattrs: bool,
}

/// One thing to do to the disk.
#[derive(Debug, Clone, Copy, PartialEq, Eq)]
pub enum FsAction {
    /// Remove the directory and all that is in it.
    RemoveDirAll { path: &'static str },
    /// Create the directory and the directories above it that are missing. A
    /// directory that is there already is left as it is.
    CreateDirAll { path: &'static str },
    /// Write the file anew with this content.
    WriteFile { path: &'static str, content: &'static str },
    /// Unpack the compressed archive into the directory.
    UnpackTarXz { dest: &'static str, options: UnpackOptions },
}

/// What a failed step amounts to.
#[derive(Debug, Clone, Copy, PartialEq, Eq)]
pub enum Failure {
    /// The disk could not be read or written.
    Io,
    /// The archive is damaged, or an entry of it could not be written.
    Archive,
}

/// A step of a plan: what to do, and what it means if that fails.
#[derive(Debug, Clone, Copy, PartialEq, Eq)]
pub struct Step {
    /// What to do.
    pub action: FsAction,
    /// The error that a failure of this step is; `None` if the plan goes on
    /// regardless.
    pub on_failure: Option<Failure>,
}

/// `FsAction` with its paths spelled out.
pub enum ActionView {
    RemoveDirAll { path: Seq<char> },
    CreateDirAll { path: Seq<char> },
    WriteFile { path: Seq<char>, content: Seq<char> },
    UnpackTarXz { dest: Seq<char>, options: UnpackOptions },
}

/// `Step` with its paths spelled out.
pub struct StepView {
    pub action: ActionView,
    pub on_failure: Option<Failure>,
}

impl View for FsAction {
    type V = ActionView;

    open spec fn view(&self) -> ActionView {
        match *self {
            FsAction::RemoveDirAll { path } => ActionView::RemoveDirAll { path: path@ },
            FsAction::CreateDirAll { path } => ActionView::CreateDirAll { path: path@ },
            FsAction::WriteFile { path, content } => ActionView::WriteFile {
                path: path@,
                content: content@,
            },
            FsAction::UnpackTarXz { dest, options } => ActionView::UnpackTarXz {
                dest: dest@,
                options,
            },
        }
    }
}

impl View for Step {
    type V = StepView;

    open spec fn view(&self) -> StepView {
        StepView { action: self.action@, on_failure: self.on_failure }
    }
}

/// A plan with its paths spelled out.
pub open spec fn plan_view(plan: Seq<Step>) -> Seq<StepView> {
    plan.map_values(|step: Step| step@)
}

/// Everything that the archive says of an entry is kept.
pub open spec fn full_fidelity() -> UnpackOptions {
    UnpackOptions { preserve_permissions: true, preserve_ownerships: true, unpack_xattrs: true }
}

/// The step that creates `path`; its failure is a failure of the disk.
pub open spec fn create_step(path: Seq<char>) -> StepView {
    StepView { action: ActionView::CreateDirAll { path }, on_failure: Some(Failure::Io) }
}

/// Setting a workspace up: the three directories of the skeleton, then the
/// version stamp.
pub open spec fn init_plan() -> Seq<StepView> {
    seq![
        create_step(skeleton()[0]),
        create_step(skeleton()[1]),
        create_step(skeleton()[2]),
        StepView {
            action: ActionView::WriteFile {
                path: CIEL_VERSION_FILE@,
                content: CURRENT_CIEL_VERSION_STR@,
            },
            on_failure: Some(Failure::Io),
        },
    ]
}

/// The end of every installation: an empty base-image directory is made, and
/// the archive is unpacked into it.
pub open spec fn unpack_plan() -> Seq<StepView> {
    seq![
        create_step(CIEL_DIST_DIR@),
        StepView {
            action: ActionView::UnpackTarXz { dest: CIEL_DIST_DIR@, options: full_fidelity() },
            on_failure: Some(Failure::Archive),
        },
    ]
}

/// Installing a base image. A base-image directory that is there is removed
/// first, and the plan goes on whether or not that worked.
pub open spec fn install_plan(dist_exists: bool) -> Seq<StepView> {
    if dist_exists {
        seq![
            StepView {
                action: ActionView::RemoveDirAll { path: CIEL_DIST_DIR@ },
                on_failure: None,
            },
        ] + unpack_plan()
    } else {
        unpack_plan()
    }
}

/// What the directory held before has no part in an installation. The plan
/// for a directory that is there is the plan for one that is not, with the
/// removal of the directory put before it; so the archive is unpacked into a
/// directory that was made for it, the first time and every time after.
pub proof fn lemma_install_starts_afresh()
    ensures
        install_plan(true).len() == 3,
        install_plan(true)[0].action == (ActionView::RemoveDirAll { path: CIEL_DIST_DIR@ }),
        install_plan(true).subrange(1, 3) == install_plan(false),
        install_plan(false) == unpack_plan(),
{
    assert(install_plan(true).subrange(1, 3) =~= install_plan(false));
}

/// The options under which a base image is unpacked: `full_fidelity()`.
pub fn unpack_options() -> (options: UnpackOptions)
    ensures
        options == full_fidelity(),
{
    UnpackOptions { preserve_permissions: true, preserve_ownerships: true, unpack_xattrs: true }
}

impl Step {
    /// Whether the plan goes on after this step.
    ///
    /// It does if the step succeeded, or if its failure does not count.
    /// Otherwise the plan ends with the step's error.
    pub fn settle(&self, succeeded: bool) -> (verdict: Result<(), Failure>)
        ensures
            verdict == (if succeeded || self.on_failure is None {
                Ok::<(), Failure>(())
            } else {
                Err::<(), Failure>(self.on_failure->Some_0)
            }),
    {
        if succeeded {
            Ok(())
        } else {
            match self.on_failure {
                None => Ok(()),
                Some(failure) => Err(failure),
            }
        }
    }
}

/// The plan that sets a workspace up.
///
/// Carried out twice, it leaves what it left the first time: the directories
/// are there already, and the stamp is written again with the same content.
pub fn ciel_init() -> (plan: Vec<Step>)
    ensures
        plan_view(plan@) == init_plan(),
{
    let plan = vec![
        Step { action: FsAction::CreateDirAll { path: CIEL_DIST_DIR }, on_failure: Some(Failure::Io) },
        Step { action: FsAction::CreateDirAll { path: CIEL_INST_DIR }, on_failure: Some(Failure::Io) },
        Step { action: FsAction::CreateDirAll { path: CIEL_DATA_DIR }, on_failure: Some(Failure::Io) },
        Step {
            action: FsAction::WriteFile {
                path: CIEL_VERSION_FILE,
                content: CURRENT_CIEL_VERSION_STR,
            },
            on_failure: Some(Failure::Io),
        },
    ];
    assert(plan_view(plan@) =~= init_plan());
    plan
}

/// The plan that installs a base image.
///
/// `dist_exists` says whether the base-image directory is there. Whatever it
/// held is gone before the archive is unpacked. Nothing is undone if a step
/// fails: what was unpacked until then stays.
pub fn extract_system_tarball(dist_exists: bool) -> (plan: Vec<Step>)
    ensures
        plan_view(plan@) == install_plan(dist_exists),
{
    let options = unpack_options();
    let mut plan: Vec<Step> = Vec::new();
    if dist_exists {
        plan.push(Step { action: FsAction::RemoveDirAll { path: CIEL_DIST_DIR }, on_failure: None });
    }
    plan.push(
        Step { action: FsAction::CreateDirAll { path: CIEL_DIST_DIR }, on_failure: Some(Failure::Io) },
    );
    plan.push(
        Step {
            action: FsAction::UnpackTarXz { dest: CIEL_DIST_DIR, options },
            on_failure: Some(Failure::Archive),
        },
    );
    assert(plan_view(plan@) =~= install_plan(dist_exists));
    plan
}

} // verus!
