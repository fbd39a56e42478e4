//! Projects an on-demand data source as a directory tree through the host's
//! filesystem-projection engine: the data model, directory listing
//! sessions, file-data chunking and the mapping of outcomes to host status
//! codes.
pub mod context;
pub mod enumeration;
pub mod file_data;
pub mod library;
pub mod name_cache;
pub mod source;
pub mod status;

pub use context::{notification_from_raw, notification_result, placeholder_result, ProjectionContext};
pub use enumeration::{sort_entries, DirectoryIteration, EntryOutcome, EnumerationStep};
pub use file_data::{FileChunk, FileDataRequest, MAX_CHUNK_LENGTH};
pub use library::{classify_load_failure, LibraryLoadFailure};
pub use name_cache::{encode_native_name, FileNameU16Cache};
pub use source::{
    find_entry, split_path, DirectoryEntry, DirectoryInfo, FileBasicInfo, FileCloseAction,
    FileInfo, FileRenameInfo, Notification, ProjectedFile, ProjectedFileSystemSource,
};
pub use status::{hresult_from_win32, io_result_to_hresult, ntstatus_to_hresult};
