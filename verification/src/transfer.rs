//! The move protocol, into the trash and back out of it.
//!
//! The library decides and the caller acts: a `Transfer` names the next step on
//! the file system, the caller performs it and reports what came of it, and the
//! transfer moves on. An item counts as trashed only once it has been renamed out
//! of the transfer directory; a copy across file systems removes its source only
//! after the copy is known to be complete.

use crate::catalog::{TrashedItem, TrashedView};
use crate::paths::{FsPath, PathView, TRASH_TRANSFER_DIRNAME};
use vstd::prelude::*;

verus! {

/// How often the final rename out of the transfer directory is tried.
pub const COMMIT_ATTEMPTS: u8 = 3;

/// How a step on the file system failed.
#[derive(Debug, Clone, Copy, PartialEq, Eq, Structural)]
pub enum FsFailure {
    /// The two paths of a rename lie on different file systems.
    CrossDevice,
    /// A path does not exist.
    NotFound,
    /// Any other failure.
    Other,
}

/// What came of a step on the file system.
#[derive(Debug, Clone, Copy, PartialEq, Eq, Structural)]
pub enum FsEvent {
    /// The step succeeded and has nothing to tell.
    Done,
    /// Whether a path exists.
    Exists(bool),
    /// Whether two paths have the same device identifier.
    Devices { same: bool },
    /// The size of a file or directory tree, in bytes.
    Size(u64),
    /// The copy ended: the bytes written, and the bytes that were to be written.
    Copied { copied: u64, total: u64 },
    /// The step failed.
    Failed(FsFailure),
}

/// The steps of the protocol.
#[derive(Debug, Clone, Copy, PartialEq, Eq, Structural)]
pub enum Step {
    CheckDestination,
    RemoveDestination,
    CheckParent,
    EnsureTrashDir,
    EnsureTransferDir,
    CompareDevices,
    Rename,
    MeasureSize,
    Copy,
    RemoveSource,
    Commit,
}

/// Why a transfer failed.
#[derive(Debug, Clone, Copy, PartialEq, Eq, Structural)]
pub enum TransferError {
    /// The destination of a restore exists and overwriting was not asked for.
    DestinationOccupied,
    /// The directory that is to hold the restored item does not exist.
    MissingParent,
    /// The item lies on another file system and moving across was not allowed.
    CrossDeviceRefused,
    /// The item is larger than the limit for moves across file systems.
    SizeLimitExceeded { size: u64, limit: u64 },
    /// The copy ended before all bytes were written; the source is untouched.
    IncompleteCopy { copied: u64, total: u64 },
    /// A step on the file system failed.
    Io { step: Step, failure: FsFailure },
    /// The caller reported something that the pending step cannot give.
    UnexpectedEvent { step: Step },
}

/// Where a transfer stands.
#[derive(Debug, Clone, Copy, PartialEq, Eq, Structural)]
pub enum Stage {
    /// A step is pending. For `Step::Commit`, `attempts_left` of them are left,
    /// this one counted; for every other step it is 1.
    Pending { step: Step, attempts_left: u8 },
    /// The item lies at its target.
    Finished,
    /// The transfer failed and goes no further.
    Failed(TransferError),
}

/// The rules that a transfer follows.
#[derive(Debug, Clone, Copy, PartialEq, Eq, Structural)]
pub struct TransferRules {
    /// Whether the item passes through the transfer directory: true into the
    /// trash, false out of it.
    pub staged: bool,
    /// Whether an existing destination is removed first.
    pub overwrite: bool,
    /// Whether the item may be copied where it lies on another file system.
    pub allow_cross_device: bool,
    /// The size above which an item is not copied across file systems.
    pub size_limit: Option<u64>,
}

/// The pending step with one attempt.
pub open spec fn pending(step: Step) -> Stage {
    Stage::Pending { step, attempts_left: 1 }
}

/// The stage that fails with an I/O error of `step`.
pub open spec fn io_failed(step: Step, failure: FsFailure) -> Stage {
    Stage::Failed(TransferError::Io { step, failure })
}

/// The stage after the item has reached the place of its first hop: the commit
/// where it went through the transfer directory, the end where it did not.
pub open spec fn after_first_hop(rules: TransferRules) -> Stage {
    if rules.staged {
        Stage::Pending { step: Step::Commit, attempts_left: COMMIT_ATTEMPTS }
    } else {
        Stage::Finished
    }
}

/// The stage at which the move across file systems sets in: refused where it is
/// not allowed, the measuring of the item where a size limit is set, the copy
/// otherwise.
pub open spec fn enter_cross_device(rules: TransferRules) -> Stage {
    if !rules.allow_cross_device {
        Stage::Failed(TransferError::CrossDeviceRefused)
    } else if rules.size_limit is Some {
        pending(Step::MeasureSize)
    } else {
        pending(Step::Copy)
    }
}

/// The stage that follows `stage` when the caller reports `event`.
pub open spec fn next_stage(rules: TransferRules, stage: Stage, event: FsEvent) -> Stage {
    match stage {
        Stage::Finished => Stage::Finished,
        Stage::Failed(error) => Stage::Failed(error),
        Stage::Pending { step, attempts_left } => match (step, event) {
            (Step::Commit, FsEvent::Done) => Stage::Finished,
            (Step::Commit, FsEvent::Failed(failure)) => if attempts_left > 1 {
                Stage::Pending { step: Step::Commit, attempts_left: (attempts_left - 1) as u8 }
            } else {
                io_failed(Step::Commit, failure)
            },
            (Step::Rename, FsEvent::Failed(FsFailure::CrossDevice)) => enter_cross_device(rules),
            (_, FsEvent::Failed(failure)) => io_failed(step, failure),
            (Step::CheckDestination, FsEvent::Exists(occupied)) => if !occupied {
                pending(Step::CheckParent)
            } else if rules.overwrite {
                pending(Step::RemoveDestination)
            } else {
                Stage::Failed(TransferError::DestinationOccupied)
            },
            (Step::RemoveDestination, FsEvent::Done) => pending(Step::CheckParent),
            (Step::CheckParent, FsEvent::Exists(there)) => if there {
                pending(Step::CompareDevices)
            } else {
                Stage::Failed(TransferError::MissingParent)
            },
            (Step::EnsureTrashDir, FsEvent::Done) => pending(Step::EnsureTransferDir),
            (Step::EnsureTransferDir, FsEvent::Done) => pending(Step::CompareDevices),
            (Step::CompareDevices, FsEvent::Devices { same }) => if same {
                pending(Step::Rename)
            } else {
                enter_cross_device(rules)
            },
            (Step::Rename, FsEvent::Done) => after_first_hop(rules),
            (Step::MeasureSize, FsEvent::Size(size)) => match rules.size_limit {
                Some(limit) => if size > limit {
                    Stage::Failed(TransferError::SizeLimitExceeded { size, limit })
                } else {
                    pending(Step::Copy)
                },
                None => pending(Step::Copy),
            },
            (Step::Copy, FsEvent::Copied { copied, total }) => if copied == total {
                pending(Step::RemoveSource)
            } else {
                Stage::Failed(TransferError::IncompleteCopy { copied, total })
            },
            (Step::RemoveSource, FsEvent::Done) => after_first_hop(rules),
            _ => Stage::Failed(TransferError::UnexpectedEvent { step }),
        },
    }
}

/// The bytes that have been copied once the caller has reported `event`: what a
/// copy reports, and otherwise what they were.
pub open spec fn bytes_after(stage: Stage, bytes_copied: u64, event: FsEvent) -> u64 {
    match (stage, event) {
        (Stage::Pending { step: Step::Copy, .. }, FsEvent::Copied { copied, .. }) => copied,
        _ => bytes_copied,
    }
}

/// The pending step with one attempt.
fn once(step: Step) -> (stage: Stage)
    ensures
        stage == pending(step),
{
    Stage::Pending { step, attempts_left: 1 }
}

/// Computes the stage that follows `stage` when the caller reports `event`.
pub fn advance_stage(rules: TransferRules, stage: Stage, event: FsEvent) -> (next: Stage)
    ensures
        next == next_stage(rules, stage, event),
{
    let (step, attempts_left) = match stage {
        Stage::Finished => {
            return Stage::Finished;
        },
        Stage::Failed(error) => {
            return Stage::Failed(error);
        },
        Stage::Pending { step, attempts_left } => (step, attempts_left),
    };
    let first_hop_done = if rules.staged {
        Stage::Pending { step: Step::Commit, attempts_left: COMMIT_ATTEMPTS }
    } else {
        Stage::Finished
    };
    let cross_device = if !rules.allow_cross_device {
        Stage::Failed(TransferError::CrossDeviceRefused)
    } else if rules.size_limit.is_some() {
        once(Step::MeasureSize)
    } else {
        once(Step::Copy)
    };
    let unexpected = Stage::Failed(TransferError::UnexpectedEvent { step });
    if let FsEvent::Failed(failure) = event {
        return match (step, failure) {
            (Step::Commit, _) => if attempts_left > 1 {
                Stage::Pending { step: Step::Commit, attempts_left: attempts_left - 1 }
            } else {
                Stage::Failed(TransferError::Io { step, failure })
            },
            (Step::Rename, FsFailure::CrossDevice) => cross_device,
            _ => Stage::Failed(TransferError::Io { step, failure }),
        };
    }
    match step {
        Step::CheckDestination => match event {
            FsEvent::Exists(occupied) => if !occupied {
                once(Step::CheckParent)
            } else if rules.overwrite {
                once(Step::RemoveDestination)
            } else {
                Stage::Failed(TransferError::DestinationOccupied)
            },
            _ => unexpected,
        },
        Step::RemoveDestination => match event {
            FsEvent::Done => once(Step::CheckParent),
            _ => unexpected,
        },
        Step::CheckParent => match event {
            FsEvent::Exists(there) => if there {
                once(Step::CompareDevices)
            } else {
                Stage::Failed(TransferError::MissingParent)
            },
            _ => unexpected,
        },
        Step::EnsureTrashDir => match event {
            FsEvent::Done => once(Step::EnsureTransferDir),
            _ => unexpected,
        },
        Step::EnsureTransferDir => match event {
            FsEvent::Done => once(Step::CompareDevices),
            _ => unexpected,
        },
        Step::CompareDevices => match event {
            FsEvent::Devices { same } => if same {
                once(Step::Rename)
            } else {
                cross_device
            },
            _ => unexpected,
        },
        Step::Rename => match event {
            FsEvent::Done => first_hop_done,
            _ => unexpected,
        },
        Step::MeasureSize => match event {
            FsEvent::Size(size) => match rules.size_limit {
                Some(limit) => if size > limit {
                    Stage::Failed(TransferError::SizeLimitExceeded { size, limit })
                } else {
                    once(Step::Copy)
                },
                None => once(Step::Copy),
            },
            _ => unexpected,
        },
        Step::Copy => match event {
            FsEvent::Copied { copied, total } => if copied == total {
                once(Step::RemoveSource)
            } else {
                Stage::Failed(TransferError::IncompleteCopy { copied, total })
            },
            _ => unexpected,
        },
        Step::RemoveSource => match event {
            FsEvent::Done => first_hop_done,
            _ => unexpected,
        },
        Step::Commit => match event {
            FsEvent::Done => Stage::Finished,
            _ => unexpected,
        },
    }
}

/// A step that the caller is asked to perform on the file system.
#[derive(Debug, Clone, PartialEq, Eq)]
pub enum FsAction {
    /// Tell whether the path exists: answered by `FsEvent::Exists`.
    CheckExists(FsPath),
    /// Remove the file, or the directory with all that it holds.
    RemoveTree(FsPath),
    /// Remove the file, or the directory, which is empty.
    RemoveEntry(FsPath),
    /// Create the directory unless it exists.
    CreateDirIfMissing(FsPath),
    /// Tell whether the two paths have the same device identifier: answered by
    /// `FsEvent::Devices`.
    CompareDevices { first: FsPath, second: FsPath },
    /// Rename `from` to `to`.
    Rename { from: FsPath, to: FsPath },
    /// Tell the size of the file or directory tree: answered by `FsEvent::Size`.
    MeasureSize(FsPath),
    /// Copy the file or directory tree, reporting progress: answered by
    /// `FsEvent::Copied`.
    CopyTree { from: FsPath, to: FsPath },
}

/// The mathematical model of a step on the file system.
pub enum ActionView {
    CheckExists(PathView),
    RemoveTree(PathView),
    RemoveEntry(PathView),
    CreateDirIfMissing(PathView),
    CompareDevices { first: PathView, second: PathView },
    Rename { from: PathView, to: PathView },
    MeasureSize(PathView),
    CopyTree { from: PathView, to: PathView },
}

impl View for FsAction {
    type V = ActionView;

    open spec fn view(&self) -> ActionView {
        match self {
            FsAction::CheckExists(path) => ActionView::CheckExists(path@),
            FsAction::RemoveTree(path) => ActionView::RemoveTree(path@),
            FsAction::RemoveEntry(path) => ActionView::RemoveEntry(path@),
            FsAction::CreateDirIfMissing(path) => ActionView::CreateDirIfMissing(path@),
            FsAction::CompareDevices { first, second } => ActionView::CompareDevices {
                first: first@,
                second: second@,
            },
            FsAction::Rename { from, to } => ActionView::Rename { from: from@, to: to@ },
            FsAction::MeasureSize(path) => ActionView::MeasureSize(path@),
            FsAction::CopyTree { from, to } => ActionView::CopyTree { from: from@, to: to@ },
        }
    }
}

/// The mathematical model of a transfer.
pub struct TransferView {
    pub rules: TransferRules,
    pub source: PathView,
    pub hop: PathView,
    pub target: PathView,
    pub anchor: PathView,
    pub transfer_dir: PathView,
    pub stage: Stage,
    pub bytes_copied: u64,
}

/// One item on its way into the trash or out of it.
#[derive(Debug, Clone, PartialEq, Eq)]
pub struct Transfer {
    /// The rules that the transfer follows.
    pub rules: TransferRules,
    /// Where the item lies.
    pub source: FsPath,
    /// Where the first rename, or the copy, puts the item: in the transfer
    /// directory on the way into the trash, at the target on the way out.
    pub hop: FsPath,
    /// Where the item lies in the end.
    pub target: FsPath,
    /// The directory that holds the target, whose file system is compared with
    /// that of the source.
    pub anchor: FsPath,
    /// The transfer directory of the trash directory.
    pub transfer_dir: FsPath,
    /// Where the transfer stands.
    pub stage: Stage,
    /// The bytes that the copy has written; 0 where nothing was copied.
    pub bytes_copied: u64,
}

impl View for Transfer {
    type V = TransferView;

    open spec fn view(&self) -> TransferView {
        TransferView {
            rules: self.rules,
            source: self.source@,
            hop: self.hop@,
            target: self.target@,
            anchor: self.anchor@,
            transfer_dir: self.transfer_dir@,
            stage: self.stage,
            bytes_copied: self.bytes_copied,
        }
    }
}

impl TransferView {
    /// The step on the file system that is pending, if the transfer has not ended.
    pub open spec fn action(self) -> Option<ActionView> {
        match self.stage {
            Stage::Finished => None,
            Stage::Failed(_) => None,
            Stage::Pending { step, .. } => Some(
                match step {
                    Step::CheckDestination => ActionView::CheckExists(self.target),
                    Step::RemoveDestination => ActionView::RemoveTree(self.target),
                    Step::CheckParent => ActionView::CheckExists(self.anchor),
                    Step::EnsureTrashDir => ActionView::CreateDirIfMissing(self.anchor),
                    Step::EnsureTransferDir => ActionView::CreateDirIfMissing(self.transfer_dir),
                    Step::CompareDevices => ActionView::CompareDevices {
                        first: self.source,
                        second: self.anchor,
                    },
                    Step::Rename => ActionView::Rename { from: self.source, to: self.hop },
                    Step::MeasureSize => ActionView::MeasureSize(self.source),
                    Step::Copy => ActionView::CopyTree { from: self.source, to: self.hop },
                    Step::RemoveSource => ActionView::RemoveTree(self.source),
                    Step::Commit => ActionView::Rename { from: self.hop, to: self.target },
                },
            ),
        }
    }

    /// The transfer after the caller has reported `event`.
    pub open spec fn advanced(self, event: FsEvent) -> TransferView {
        TransferView {
            stage: next_stage(self.rules, self.stage, event),
            bytes_copied: bytes_after(self.stage, self.bytes_copied, event),
            ..self
        }
    }

    /// The transfer after the caller has reported `events`, one after the other.
    pub open spec fn run(self, events: Seq<FsEvent>) -> TransferView
        decreases events.len(),
    {
        if events.len() == 0 {
            self
        } else {
            self.run(events.drop_last()).advanced(events.last())
        }
    }

    /// The transfer of `item`, which lies at `source`, into its trash directory.
    pub open spec fn into_trash(
        source: PathView,
        item: TrashedView,
        size_limit: Option<u64>,
    ) -> TransferView {
        TransferView {
            rules: TransferRules {
                staged: true,
                overwrite: false,
                allow_cross_device: true,
                size_limit,
            },
            source,
            hop: item.transfer_path(),
            target: item.complete_path(),
            anchor: item.trash_dir,
            transfer_dir: item.trash_dir.join(TRASH_TRANSFER_DIRNAME@),
            stage: pending(Step::EnsureTrashDir),
            bytes_copied: 0,
        }
    }

    /// The transfer of `item` out of the trash to `target`, which lies in the
    /// directory `parent`.
    pub open spec fn out_of_trash(
        item: TrashedView,
        target: PathView,
        parent: PathView,
        rules: TransferRules,
    ) -> TransferView {
        TransferView {
            rules: TransferRules { staged: false, ..rules },
            source: item.complete_path(),
            hop: target,
            target,
            anchor: parent,
            transfer_dir: parent,
            stage: pending(Step::CheckDestination),
            bytes_copied: 0,
        }
    }
}

/// Where a restored item goes: below `destination` under its file name where
/// `destination` is a directory, at `destination` itself where it is none.
pub open spec fn restore_target(
    destination: PathView,
    destination_is_dir: bool,
    filename: Seq<char>,
) -> PathView {
    if destination_is_dir {
        destination.join(filename)
    } else {
        destination
    }
}

impl Transfer {
    /// Starts the transfer into the trash of `item`, which lies at `source`. An
    /// item on another file system is copied, unless it is larger than
    /// `size_limit`.
    pub fn into_trash(source: FsPath, item: &TrashedItem, size_limit: Option<u64>) -> (transfer:
        Transfer)
        ensures
            transfer@ == TransferView::into_trash(source@, item@, size_limit),
    {
        Transfer {
            rules: TransferRules {
                staged: true,
                overwrite: false,
                allow_cross_device: true,
                size_limit,
            },
            source,
            hop: item.transfer_trash_item_path(),
            target: item.complete_trash_item_path(),
            anchor: item.trash_dir.clone(),
            transfer_dir: item.trash_dir.join(TRASH_TRANSFER_DIRNAME),
            stage: once(Step::EnsureTrashDir),
            bytes_copied: 0,
        }
    }

    /// Starts the transfer of `item` out of the trash. The item goes below
    /// `destination` where that is a directory, and to `destination` itself where
    /// it is none. A target without a directory above it is refused.
    pub fn out_of_trash(
        item: &TrashedItem,
        destination: &FsPath,
        destination_is_dir: bool,
        rules: TransferRules,
    ) -> (transfer: Result<Transfer, TransferError>)
        ensures
            ({
                let target = restore_target(destination@, destination_is_dir, item@.data.filename);
                match transfer {
                    Ok(started) => target.parent() matches Some(parent) && started@
                        == TransferView::out_of_trash(item@, target, parent, rules),
                    Err(reason) => target.parent() is None && reason == TransferError::MissingParent,
                }
            }),
    {
        let target = if destination_is_dir {
            destination.join(item.data.filename.as_str())
        } else {
            destination.clone()
        };
        let parent = match target.parent() {
            Some(parent) => parent,
            None => {
                return Err(TransferError::MissingParent);
            },
        };
        Ok(
            Transfer {
                rules: TransferRules {
                    staged: false,
                    overwrite: rules.overwrite,
                    allow_cross_device: rules.allow_cross_device,
                    size_limit: rules.size_limit,
                },
                source: item.complete_trash_item_path(),
                hop: target.clone(),
                target,
                anchor: parent.clone(),
                transfer_dir: parent,
                stage: once(Step::CheckDestination),
                bytes_copied: 0,
            },
        )
    }

    /// The step that the caller is to perform next; `None` once the transfer has
    /// ended.
    pub fn pending_action(&self) -> (action: Option<FsAction>)
        ensures
            match action {
                Some(step) => self@.action() == Some(step@),
                None => self@.action() is None,
            },
    {
        let step = match self.stage {
            Stage::Finished => {
                return None;
            },
            Stage::Failed(_) => {
                return None;
            },
            Stage::Pending { step, .. } => step,
        };
        Some(
            match step {
                Step::CheckDestination => FsAction::CheckExists(self.target.clone()),
                Step::RemoveDestination => FsAction::RemoveTree(self.target.clone()),
                Step::CheckParent => FsAction::CheckExists(self.anchor.clone()),
                Step::EnsureTrashDir => FsAction::CreateDirIfMissing(self.anchor.clone()),
                Step::EnsureTransferDir => FsAction::CreateDirIfMissing(self.transfer_dir.clone()),
                Step::CompareDevices => FsAction::CompareDevices {
                    first: self.source.clone(),
                    second: self.anchor.clone(),
                },
                Step::Rename => FsAction::Rename { from: self.source.clone(), to: self.hop.clone() },
                Step::MeasureSize => FsAction::MeasureSize(self.source.clone()),
                Step::Copy => FsAction::CopyTree {
                    from: self.source.clone(),
                    to: self.hop.clone(),
                },
                Step::RemoveSource => FsAction::RemoveTree(self.source.clone()),
                Step::Commit => FsAction::Rename { from: self.hop.clone(), to: self.target.clone() },
            },
        )
    }

    /// Takes in what came of the pending step and moves on to the next.
    pub fn advance(&mut self, event: FsEvent)
        ensures
            final(self)@ == old(self)@.advanced(event),
    {
        if let Stage::Pending { step: Step::Copy, .. } = self.stage {
            if let FsEvent::Copied { copied, .. } = event {
                self.bytes_copied = copied;
            }
        }
        self.stage = advance_stage(self.rules, self.stage, event);
    }

    /// How the transfer ended; `None` while a step is pending.
    pub fn outcome(&self) -> (ended: Option<Result<(), TransferError>>)
        ensures
            ended == match self.stage {
                Stage::Finished => Some(Ok::<(), TransferError>(())),
                Stage::Failed(error) => Some(Err::<(), TransferError>(error)),
                Stage::Pending { .. } => None::<Result<(), TransferError>>,
            },
    {
        match self.stage {
            Stage::Finished => Some(Ok(())),
            Stage::Failed(error) => Some(Err(error)),
            Stage::Pending { .. } => None,
        }
    }
}

/// Whether the stage belongs to a move across file systems: the item is being
/// measured or copied, or its source is being removed after the copy.
pub open spec fn copies(stage: Stage) -> bool {
    stage matches Stage::Pending { step, .. } && (step == Step::MeasureSize || step == Step::Copy
        || step == Step::RemoveSource)
}

/// Whether the events are those of a move within one file system: the devices are
/// never reported to differ, and no step fails for crossing devices.
pub open spec fn within_one_device(events: Seq<FsEvent>) -> bool {
    forall|i: int|
        0 <= i < events.len() ==> (#[trigger] events[i]) != (FsEvent::Devices { same: false })
            && events[i] != FsEvent::Failed(FsFailure::CrossDevice)
}

/// An upper bound on the steps that a transfer has before it.
pub open spec fn steps_left(stage: Stage) -> nat {
    match stage {
        Stage::Finished => 0,
        Stage::Failed(_) => 0,
        Stage::Pending { step, attempts_left } => match step {
            Step::CheckDestination => 266,
            Step::RemoveDestination => 265,
            Step::CheckParent => 264,
            Step::EnsureTrashDir => 265,
            Step::EnsureTransferDir => 264,
            Step::CompareDevices => 263,
            Step::Rename => 262,
            Step::MeasureSize => 261,
            Step::Copy => 260,
            Step::RemoveSource => 259,
            Step::Commit => (attempts_left + 1) as nat,
        },
    }
}

/// A move within one file system copies nothing: it never reaches a stage of the
/// move across file systems, and no byte is reported as copied.
pub proof fn lemma_same_device_move_copies_nothing(start: TransferView, events: Seq<FsEvent>)
    requires
        !copies(start.stage),
        within_one_device(events),
    ensures
        !copies(start.run(events).stage),
        start.run(events).bytes_copied == start.bytes_copied,
        forall|k: int|
            0 <= k <= events.len() ==> !copies((#[trigger] start.run(events.take(k))).stage),
    decreases events.len(),
{
    if events.len() > 0 {
        let head = events.drop_last();
        assert(within_one_device(head)) by {
            assert forall|i: int| 0 <= i < head.len() implies (#[trigger] head[i]) != (
            FsEvent::Devices { same: false }) && head[i] != FsEvent::Failed(
                FsFailure::CrossDevice,
            ) by {
                assert(head[i] == events[i]);
            }
        }
        lemma_same_device_move_copies_nothing(start, head);
        assert(events.last() == events[events.len() - 1]);
        assert forall|k: int| 0 <= k <= events.len() implies !copies(
            (#[trigger] start.run(events.take(k))).stage,
        ) by {
            if k < events.len() {
                assert(events.take(k) =~= head.take(k));
            } else {
                assert(events.take(k) =~= events);
            }
        }
    } else {
        assert forall|k: int| 0 <= k <= events.len() implies !copies(
            (#[trigger] start.run(events.take(k))).stage,
        ) by {
            assert(events.take(k) =~= events);
        }
    }
}

/// The source is removed only after a copy that wrote every byte: the removal of
/// the source becomes the pending step in no other way.
pub proof fn lemma_source_removed_only_after_complete_copy(
    rules: TransferRules,
    stage: Stage,
    event: FsEvent,
)
    requires
        next_stage(rules, stage, event) matches Stage::Pending { step: Step::RemoveSource, .. },
    ensures
        stage matches Stage::Pending { step: Step::Copy, .. },
        (event matches FsEvent::Copied { copied, total } && copied == total),
{
}

/// An occupied destination ends the restore unless overwriting was asked for, and
/// then the occupant is removed first: the steps that move the item set in only
/// after the destination was found vacant or its occupant was removed.
pub proof fn lemma_occupied_destination(rules: TransferRules, stage: Stage, event: FsEvent)
    ensures
        next_stage(rules, pending(Step::CheckDestination), FsEvent::Exists(true)) == if rules.overwrite {
            pending(Step::RemoveDestination)
        } else {
            Stage::Failed(TransferError::DestinationOccupied)
        },
        next_stage(rules, stage, event) == pending(Step::CheckParent) ==> ((stage matches Stage::Pending {
            step: Step::CheckDestination,
            ..
        } && event == FsEvent::Exists(false)) || (stage matches Stage::Pending {
            step: Step::RemoveDestination,
            ..
        } && event == FsEvent::Done)),
{
}

/// An item counts as moved only once its last step has succeeded: the commit out
/// of the transfer directory where it is staged, the rename or the removal of the
/// copied source where it is not.
pub proof fn lemma_finished_only_by_last_step(rules: TransferRules, stage: Stage, event: FsEvent)
    requires
        next_stage(rules, stage, event) == Stage::Finished,
        stage != Stage::Finished,
    ensures
        event == FsEvent::Done,
        rules.staged ==> (stage matches Stage::Pending { step: Step::Commit, .. }),
        !rules.staged ==> (stage matches Stage::Pending { step, .. } && (step == Step::Rename
            || step == Step::RemoveSource || step == Step::Commit)),
{
}

/// Every report brings the end nearer, so a transfer ends after a bounded number
/// of steps; the commit in particular is tried `COMMIT_ATTEMPTS` times at most.
pub proof fn lemma_every_step_brings_the_end_nearer(
    rules: TransferRules,
    stage: Stage,
    event: FsEvent,
)
    requires
        stage is Pending,
    ensures
        steps_left(next_stage(rules, stage, event)) < steps_left(stage),
{
}

/// A transfer that has ended stays as it is, whatever is reported.
pub proof fn lemma_ended_transfer_stays(rules: TransferRules, stage: Stage, event: FsEvent)
    requires
        !(stage is Pending),
    ensures
        next_stage(rules, stage, event) == stage,
{
}

} // verus!
