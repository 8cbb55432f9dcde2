//! Generic filesystem structures: names, timestamps, attributes, handles and
//! directory entries.

pub mod attributes;
pub mod cluster;
pub mod directory;
pub mod filename;
pub mod search_id;
pub mod timestamp;

pub use self::attributes::Attributes;
pub use self::cluster::ClusterId;
pub use self::directory::{DirEntry, Directory, DirectoryInfo, RawDirectory};
pub use self::filename::{FilenameError, ShortFileName};
pub use self::search_id::{SearchId, SearchIdGenerator};
pub use self::timestamp::{TimeSource, Timestamp};
