//! The installation orchestrator: a linear stage machine that sequences
//! resolve, download and extraction, optionally twice (a primary asset
//! and an optional addon), and converts cancellation and failure into
//! terminal stages.
//!
//! The worker drives the machine: it performs one stage's outside work,
//! then reports completion, cancellation or failure; the machine decides
//! the next stage. Stages are strictly sequential and the machine never
//! revisits a stage.

use vstd::prelude::*;

use crate::catalog::AssetRole;
use crate::download::Progress;

verus! {

/// The stages of one installation attempt, in order; `Aborted` and
/// `Failed` are terminal short-circuits.
#[derive(Clone, Copy, Debug, PartialEq, Eq, Structural)]
pub enum Stage {
    Preparing,
    Downloading,
    Extracting,
    DownloadingSpr,
    ExtractingSpr,
    CleaningUp,
    Done,
    Aborted,
    Failed,
}

/// A lifecycle or progress event the worker emits to the foreground,
/// in emission order over a first-in-first-out channel.
#[derive(Clone, Copy, Debug, PartialEq, Eq, Structural)]
pub enum Message {
    Preparing,
    Downloading,
    Extracting,
    DownloadingSpr,
    ExtractingSpr,
    CleaningUp,
    UpdateProgressBar(Progress),
    Error,
    Done,
}

/// A stage no run ever leaves.
pub open spec fn is_terminal(st: Stage) -> bool {
    st == Stage::Done || st == Stage::Aborted || st == Stage::Failed
}

/// The position of a stage in the linear order; terminal stages share
/// the last position.
pub open spec fn stage_rank(st: Stage) -> int {
    match st {
        Stage::Preparing => 0,
        Stage::Downloading => 1,
        Stage::Extracting => 2,
        Stage::DownloadingSpr => 3,
        Stage::ExtractingSpr => 4,
        Stage::CleaningUp => 5,
        Stage::Done => 6,
        Stage::Aborted => 6,
        Stage::Failed => 6,
    }
}

/// The stage that follows a completed stage. The addon branch is skipped
/// entirely when the addon was not requested: extraction of the primary
/// asset then leads straight to cleanup.
pub open spec fn spec_next_stage(st: Stage, install_spr: bool) -> Stage {
    match st {
        Stage::Preparing => Stage::Downloading,
        Stage::Downloading => Stage::Extracting,
        Stage::Extracting => if install_spr {
            Stage::DownloadingSpr
        } else {
            Stage::CleaningUp
        },
        Stage::DownloadingSpr => Stage::ExtractingSpr,
        Stage::ExtractingSpr => Stage::CleaningUp,
        Stage::CleaningUp => Stage::Done,
        Stage::Done => Stage::Done,
        Stage::Aborted => Stage::Aborted,
        Stage::Failed => Stage::Failed,
    }
}

/// The stage machine of one installation attempt, under the options
/// captured by value when the attempt started.
#[derive(Clone, Copy, Debug, PartialEq, Eq, Structural)]
pub struct Orchestrator {
    pub stage: Stage,
    pub use_deluxe: bool,
    pub install_spr: bool,
}

impl Orchestrator {
    /// A fresh attempt starts in the preparing stage.
    pub fn new(use_deluxe: bool, install_spr: bool) -> (r: Orchestrator)
        ensures
            r.stage == Stage::Preparing,
            r.use_deluxe == use_deluxe,
            r.install_spr == install_spr,
    {
        Orchestrator { stage: Stage::Preparing, use_deluxe, install_spr }
    }

    /// Which primary asset role this attempt requests from the resolver:
    /// the variant preference selects it.
    pub fn primary_role(&self) -> (r: AssetRole)
        ensures
            self.use_deluxe ==> r == AssetRole::DlxVer,
            !self.use_deluxe ==> r == AssetRole::DefVer,
    {
        if self.use_deluxe {
            AssetRole::DlxVer
        } else {
            AssetRole::DefVer
        }
    }

    /// The stage-transition message the worker emits when this stage is
    /// entered; cancellation is not announced by the worker (the
    /// foreground translates it itself), so an aborted attempt emits
    /// nothing further.
    pub fn stage_message(&self) -> (r: Option<Message>)
        ensures
            r == spec_stage_message(self.stage),
    {
        match self.stage {
            Stage::Preparing => Some(Message::Preparing),
            Stage::Downloading => Some(Message::Downloading),
            Stage::Extracting => Some(Message::Extracting),
            Stage::DownloadingSpr => Some(Message::DownloadingSpr),
            Stage::ExtractingSpr => Some(Message::ExtractingSpr),
            Stage::CleaningUp => Some(Message::CleaningUp),
            Stage::Done => Some(Message::Done),
            Stage::Aborted => None,
            Stage::Failed => Some(Message::Error),
        }
    }

    /// Completes the current stage: when the cancellation flag was
    /// observed set at this boundary, the attempt ends as aborted, a
    /// success without further stages; otherwise the machine moves to
    /// the next stage of the linear order.
    pub fn on_stage_complete(&mut self, cancelled: bool)
        ensures
            final(self).use_deluxe == old(self).use_deluxe,
            final(self).install_spr == old(self).install_spr,
            cancelled && !is_terminal(old(self).stage) ==> final(self).stage == Stage::Aborted,
            !cancelled || is_terminal(old(self).stage) ==> final(self).stage == spec_next_stage(
                old(self).stage,
                old(self).install_spr,
            ),
    {
        if cancelled && !self.is_terminal_stage() {
            self.stage = Stage::Aborted;
        } else {
            self.stage = match self.stage {
                Stage::Preparing => Stage::Downloading,
                Stage::Downloading => Stage::Extracting,
                Stage::Extracting => if self.install_spr {
                    Stage::DownloadingSpr
                } else {
                    Stage::CleaningUp
                },
                Stage::DownloadingSpr => Stage::ExtractingSpr,
                Stage::ExtractingSpr => Stage::CleaningUp,
                Stage::CleaningUp => Stage::Done,
                Stage::Done => Stage::Done,
                Stage::Aborted => Stage::Aborted,
                Stage::Failed => Stage::Failed,
            };
        }
    }

    /// Records a stage failure: the first error is fatal to the whole
    /// attempt, all later stages are short-circuited.
    pub fn on_failure(&mut self)
        ensures
            final(self).stage == Stage::Failed,
            final(self).use_deluxe == old(self).use_deluxe,
            final(self).install_spr == old(self).install_spr,
    {
        self.stage = Stage::Failed;
    }

    /// Whether the attempt has ended.
    pub fn is_terminal_stage(&self) -> (r: bool)
        ensures
            r == is_terminal(self.stage),
    {
        match self.stage {
            Stage::Done => true,
            Stage::Aborted => true,
            Stage::Failed => true,
            _ => false,
        }
    }
}

/// The stage-transition message of each stage.
pub open spec fn spec_stage_message(st: Stage) -> Option<Message> {
    match st {
        Stage::Preparing => Some(Message::Preparing),
        Stage::Downloading => Some(Message::Downloading),
        Stage::Extracting => Some(Message::Extracting),
        Stage::DownloadingSpr => Some(Message::DownloadingSpr),
        Stage::ExtractingSpr => Some(Message::ExtractingSpr),
        Stage::CleaningUp => Some(Message::CleaningUp),
        Stage::Done => Some(Message::Done),
        Stage::Aborted => None,
        Stage::Failed => Some(Message::Error),
    }
}

/// The stage order is linear and free of cycles: every transition out of
/// a non-terminal stage strictly advances the stage's position, and a
/// terminal stage never changes, so every attempt ends after at most the
/// number of stages there are.
pub proof fn lemma_stage_progression(st: Stage, install_spr: bool)
    ensures
        !is_terminal(st) ==> stage_rank(spec_next_stage(st, install_spr)) > stage_rank(st),
        is_terminal(st) ==> spec_next_stage(st, install_spr) == st,
        stage_rank(st) <= 6,
{
}

/// When the optional addon is not requested, the addon stages are
/// skipped entirely: no transition of such an attempt enters them, and
/// primary extraction leads straight to cleanup.
pub proof fn lemma_addon_skipped(st: Stage)
    ensures
        spec_next_stage(st, false) != Stage::DownloadingSpr,
        st != Stage::DownloadingSpr ==> spec_next_stage(st, false) != Stage::ExtractingSpr,
        spec_next_stage(Stage::Extracting, false) == Stage::CleaningUp,
{
}

} // verus!
