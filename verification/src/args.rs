//! The commands of the trash and their options, as plain values.

use crate::paths::FsPath;
use vstd::prelude::*;

verus! {

/// How much the program tells of what it does.
#[derive(Debug, Clone, Copy, PartialEq, Eq, Structural)]
pub enum Verbosity {
    Off,
    Error,
    Warn,
    Info,
    Debug,
    Trace,
}

/// One invocation: the options that hold for every command, and the command.
#[derive(Debug, Clone, PartialEq, Eq)]
pub struct Args {
    /// Level of verbosity.
    pub verbosity: Verbosity,
    /// Directories below which no trash directory is made.
    pub exclude: Vec<FsPath>,
    /// The command.
    pub action: Action,
}

/// One invocation, under the name that the command line gives it: the options
/// that hold for every command, and the command.
#[derive(Debug, Clone, PartialEq, Eq)]
pub struct Cmd {
    /// Level of verbosity.
    pub verbosity: Verbosity,
    /// Directories below which no trash directory is made.
    pub exclude: Vec<FsPath>,
    /// The command.
    pub action: Action,
}

/// One invocation on a single trash directory that the caller names.
#[derive(Debug, Clone, PartialEq, Eq)]
pub struct Opts {
    /// The trash directory.
    pub trash_dir: FsPath,
    /// Create the trash directory where it does not exist.
    pub create_trash_dir: bool,
    /// Leave the transfer directory as it is, with what interrupted moves left
    /// in it.
    pub no_cleanup: bool,
    /// Tell more of what is done.
    pub verbose: bool,
    /// The command.
    pub action: Action,
}

/// The commands.
#[derive(Debug, Clone, PartialEq, Eq)]
pub enum Action {
    /// List the items in the trash.
    List(ListTrashItems),
    /// Move items to the trash.
    Remove(MoveToTrash),
    /// Restore an item from the trash.
    Restore(RestoreItem),
    /// Permanently delete an item from the trash.
    Drop(DropItem),
    /// Print the path of an item inside its trash directory.
    PathOf(GetItemPath),
    /// Print the path of the trash directory for the current directory.
    TrashPath,
    /// Permanently delete all items in the trash.
    Empty(EmptyTrash),
}

/// Options of the listing.
#[derive(Debug, Clone, PartialEq, Eq)]
pub struct ListTrashItems {
    /// Only list the items whose file name holds this text.
    pub name: Option<String>,
    /// List every trash directory, not only the one of the current directory.
    pub all: bool,
}

/// Options of the move to the trash.
#[derive(Debug, Clone, PartialEq, Eq)]
pub struct MoveToTrash {
    /// The paths of the items to move to the trash.
    pub paths: Vec<String>,
    /// Delete the items permanently.
    pub permanently: bool,
    /// Pass over an item that does not exist.
    pub ignore: bool,
    /// Accept file names that are not valid UTF-8, in a lossy rendering.
    pub allow_invalid_utf8_item_names: bool,
    /// The size, in bytes, above which an item is not copied to a trash directory
    /// on another file system.
    pub size_limit_move_ext_filesystems: Option<u64>,
}

/// Options of the restore.
#[derive(Debug, Clone, PartialEq, Eq)]
pub struct RestoreItem {
    /// The file name of the item to restore; without it the item is chosen from a
    /// list.
    pub filename: Option<String>,
    /// Where the item goes; the current directory by default.
    pub to: Option<FsPath>,
    /// The identifier of the item, where several items have the file name.
    pub id: Option<String>,
    /// Copy the item where the destination lies on another file system.
    pub move_ext_filesystems: bool,
    /// Remove what lies at the destination first.
    pub force: bool,
}

/// Options of the permanent deletion of one item.
#[derive(Debug, Clone, PartialEq, Eq)]
pub struct DropItem {
    /// The file name of the item.
    pub filename: String,
    /// The identifier of the item, where several items have the file name.
    pub id: Option<String>,
}

/// Options of the query for an item's path.
#[derive(Debug, Clone, PartialEq, Eq)]
pub struct GetItemPath {
    /// The file name of the item.
    pub filename: String,
    /// The identifier of the item, where several items have the file name.
    pub id: Option<String>,
    /// Print the path in a lossy rendering where it is not valid UTF-8.
    pub allow_invalid_utf8_path: bool,
}

/// Options of the emptying of the trash: none.
#[derive(Debug, Clone, Copy, PartialEq, Eq, Structural)]
pub struct EmptyTrash {}

} // verus!
