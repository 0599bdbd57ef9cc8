//! A trash manager's core: where a path's trash directory lies, how a trashed item
//! is named on disk, how the trash is listed and searched, and which file-system
//! steps move an item into the trash and back.

pub mod actions;
pub mod args;
pub mod base64url;
pub mod catalog;
pub mod clock;
pub mod fuzzy;
pub mod ident;
pub mod items;
pub mod mounts;
pub mod order;
pub mod paths;
pub mod size;
pub mod table;
pub mod text;
pub mod transfer;
