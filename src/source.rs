use std::ops::ControlFlow;

use vstd::prelude::*;

verus! {

/// Attributes of a projected file.
///
/// The file size should match the content that the source streams, else a
/// client may expect more or less content than it receives.
#[derive(Default, Debug, Clone, PartialEq, Eq, PartialOrd, Ord)]
pub struct FileInfo {
    pub file_name: String,
    pub file_size: u64,
    pub file_attributes: u32,
    pub creation_time: u64,
    pub last_access_time: u64,
    pub last_write_time: u64,
}

/// Attributes of a projected directory.
#[derive(Default, Debug, Clone, PartialEq, Eq, PartialOrd, Ord)]
pub struct DirectoryInfo {
    pub directory_name: String,
    pub directory_attributes: u32,
    pub creation_time: u64,
    pub last_access_time: u64,
    pub last_write_time: u64,
}

/// One entry of a directory listing: a directory or a file.
#[derive(Debug, Clone, PartialEq, Eq, PartialOrd, Ord)]
pub enum DirectoryEntry {
    Directory(DirectoryInfo),
    File(FileInfo),
}

/// The fixed metadata record that the host engine stores for a placeholder.
#[derive(Debug, Clone, Copy, PartialEq, Eq, Structural)]
pub struct FileBasicInfo {
    pub is_directory: bool,
    pub file_size: i64,
    pub creation_time: i64,
    pub last_access_time: i64,
    pub last_write_time: i64,
    pub change_time: i64,
    pub file_attributes: u32,
}

impl DirectoryEntry {
    /// The entry's name, as a sequence of characters.
    pub open spec fn name_view(&self) -> Seq<char> {
        match self {
            DirectoryEntry::Directory(d) => d.directory_name@,
            DirectoryEntry::File(f) => f.file_name@,
        }
    }

    /// The host record of an entry. The change time mirrors the last write
    /// time: the two are merged at this layer.
    pub open spec fn basic_info_spec(&self) -> FileBasicInfo {
        match self {
            DirectoryEntry::Directory(d) => FileBasicInfo {
                is_directory: true,
                file_size: 0,
                creation_time: d.creation_time as i64,
                last_access_time: d.last_access_time as i64,
                last_write_time: d.last_write_time as i64,
                change_time: d.last_write_time as i64,
                file_attributes: d.directory_attributes,
            },
            DirectoryEntry::File(f) => FileBasicInfo {
                is_directory: false,
                file_size: f.file_size as i64,
                creation_time: f.creation_time as i64,
                last_access_time: f.last_access_time as i64,
                last_write_time: f.last_write_time as i64,
                change_time: f.last_write_time as i64,
                file_attributes: f.file_attributes,
            },
        }
    }

    pub fn name(&self) -> (r: &str)
        ensures
            r@ == self.name_view(),
    {
        match self {
            DirectoryEntry::Directory(dir) => dir.directory_name.as_str(),
            DirectoryEntry::File(file) => file.file_name.as_str(),
        }
    }

    /// A copy of the entry's name.
    pub fn name_string(&self) -> (r: String)
        ensures
            r@ == self.name_view(),
    {
        match self {
            DirectoryEntry::Directory(dir) => dir.directory_name.clone(),
            DirectoryEntry::File(file) => file.file_name.clone(),
        }
    }

    pub fn get_basic_info(&self) -> (r: FileBasicInfo)
        ensures
            r == self.basic_info_spec(),
    {
        match self {
            DirectoryEntry::Directory(directory) => FileBasicInfo {
                is_directory: true,
                file_size: 0,
                creation_time: directory.creation_time as i64,
                last_access_time: directory.last_access_time as i64,
                last_write_time: directory.last_write_time as i64,
                change_time: directory.last_write_time as i64,
                file_attributes: directory.directory_attributes,
            },
            DirectoryEntry::File(file) => FileBasicInfo {
                is_directory: false,
                file_size: file.file_size as i64,
                creation_time: file.creation_time as i64,
                last_access_time: file.last_access_time as i64,
                last_write_time: file.last_write_time as i64,
                change_time: file.last_write_time as i64,
                file_attributes: file.file_attributes,
            },
        }
    }
}

impl From<FileInfo> for DirectoryEntry {
    fn from(value: FileInfo) -> (r: DirectoryEntry) {
        DirectoryEntry::File(value)
    }
}

impl vstd::std_specs::convert::FromSpecImpl<FileInfo> for DirectoryEntry {
    open spec fn obeys_from_spec() -> bool {
        true
    }

    open spec fn from_spec(v: FileInfo) -> DirectoryEntry {
        DirectoryEntry::File(v)
    }
}

impl From<DirectoryInfo> for DirectoryEntry {
    fn from(value: DirectoryInfo) -> (r: DirectoryEntry) {
        DirectoryEntry::Directory(value)
    }
}

impl vstd::std_specs::convert::FromSpecImpl<DirectoryInfo> for DirectoryEntry {
    open spec fn obeys_from_spec() -> bool {
        true
    }

    open spec fn from_spec(v: DirectoryInfo) -> DirectoryEntry {
        DirectoryEntry::Directory(v)
    }
}

/// How a file handle was closed.
#[derive(Debug, Clone, Copy, PartialEq, Eq, PartialOrd, Ord, Structural)]
pub enum FileCloseAction {
    /// The file was closed and deleted.
    Deleted,
    /// The file was closed and its content modified.
    Modified,
    /// The file was closed without changes to its content.
    NoModification,
}

/// The file that a notification is about.
#[derive(Default, Debug, Clone, PartialEq, Eq, PartialOrd, Ord)]
pub struct ProjectedFile {
    pub file_id: u128,
    pub is_directory: bool,
    pub path: String,
}

/// Source and destination of a rename.
#[derive(Default, Debug, Clone, PartialEq, Eq, PartialOrd, Ord)]
pub struct FileRenameInfo {
    pub source: Option<String>,
    pub destination: Option<String>,
}

/// A lifecycle event that the host reports for a projected file.
#[derive(Debug, Clone, PartialEq, Eq, PartialOrd, Ord)]
pub enum Notification {
    FileCreated(ProjectedFile),
    FileOpened(ProjectedFile),
    FileClosed(ProjectedFile, FileCloseAction),
    FileOverwritten(ProjectedFile),
    PreFileRename(FileRenameInfo),
    FileRenamed(FileRenameInfo),
    PreSetHardlink(ProjectedFile),
    HardlinkCreated(ProjectedFile),
    PreFileDelete(ProjectedFile),
    FilePreConvertToFull(ProjectedFile),
}

impl Notification {
    /// The events whose operation the host lets the source veto.
    pub open spec fn cancelable_spec(&self) -> bool {
        match self {
            Notification::PreFileRename(_) => true,
            Notification::PreFileDelete(_) => true,
            Notification::PreSetHardlink(_) => true,
            Notification::FilePreConvertToFull(_) => true,
            _ => false,
        }
    }

    /// Returns `true` if the operation can be cancelled by answering
    /// `ControlFlow::Break`.
    pub fn is_cancelable(&self) -> (r: bool)
        ensures
            r == self.cancelable_spec(),
    {
        match self {
            Notification::PreFileRename(_) => true,
            Notification::PreFileDelete(_) => true,
            Notification::PreSetHardlink(_) => true,
            Notification::FilePreConvertToFull(_) => true,
            _ => false,
        }
    }
}

/// The path separators: the host accepts both slashes.
pub open spec fn path_separators() -> Seq<char> {
    seq!['/', '\\']
}

/// The position of the last character of `s` that is one of `chars`, or -1
/// where there is none.
pub open spec fn last_index_of_any(s: Seq<char>, chars: Seq<char>) -> int
    decreases s.len(),
{
    if s.len() == 0 {
        -1
    } else if chars.contains(s.last()) {
        s.len() - 1
    } else {
        last_index_of_any(s.drop_last(), chars)
    }
}

/// The position of the last separator in `s`, or -1 where there is none.
pub open spec fn last_separator(s: Seq<char>) -> int {
    last_index_of_any(s, path_separators())
}

/// The directory part of a path: what stands before its last separator, or
/// the empty path where there is none.
pub open spec fn parent_of(s: Seq<char>) -> Seq<char> {
    let k = last_separator(s);
    if k < 0 {
        Seq::empty()
    } else {
        s.subrange(0, k)
    }
}

/// The final component of a path: what stands after its last separator.
pub open spec fn file_name_of(s: Seq<char>) -> Seq<char> {
    s.subrange(last_separator(s) + 1, s.len() as int)
}

/// Relies on `str::rsplit_once` with a slice of characters as the pattern:
/// it splits at the last occurrence of any of them, leaving that character
/// out of both parts, and gives `None` where none occurs.
#[verifier::external_body]
fn rsplit_once_any<'a>(s: &'a str, chars: &[char]) -> (r: Option<(&'a str, &'a str)>)
    ensures
        match r {
            Some((a, b)) => last_index_of_any(s@, chars@) >= 0 && a@ == s@.subrange(
                0,
                last_index_of_any(s@, chars@),
            ) && b@ == s@.subrange(last_index_of_any(s@, chars@) + 1, s@.len() as int),
            None => last_index_of_any(s@, chars@) < 0,
        },
{
    s.rsplit_once(chars)
}

/// Splits a path into its directory part and its final component; a path
/// whose final component is empty has no file name.
pub fn split_path(path: &str) -> (r: (&str, Option<&str>))
    ensures
        r.0@ == parent_of(path@),
        match r.1 {
            Some(n) => n@ == file_name_of(path@) && n@.len() > 0,
            None => file_name_of(path@).len() == 0,
        },
{
    proof {
        lemma_last_index_bounds(path@, path_separators());
    }
    let separators = vec!['/', '\\'];
    assert(separators@ == path_separators());
    match rsplit_once_any(path, separators.as_slice()) {
        Some((parent, name)) => {
            if name.is_empty() {
                (parent, None)
            } else {
                (parent, Some(name))
            }
        },
        None => {
            proof {
                assert(path@.subrange(0, path@.len() as int) =~= path@);
                reveal_strlit("");
            }
            if path.is_empty() {
                ("", None)
            } else {
                ("", Some(path))
            }
        },
    }
}

proof fn lemma_last_index_bounds(s: Seq<char>, chars: Seq<char>)
    ensures
        -1 <= last_index_of_any(s, chars) < s.len(),
    decreases s.len(),
{
    if s.len() > 0 && !chars.contains(s.last()) {
        lemma_last_index_bounds(s.drop_last(), chars);
    }
}

/// `r` is the first entry of `listing` named `name`, or `None` where no
/// entry has that name.
pub open spec fn first_named(
    listing: Seq<DirectoryEntry>,
    name: Seq<char>,
    r: Option<DirectoryEntry>,
) -> bool {
    match r {
        Some(e) => exists|i: int|
            0 <= i < listing.len() && listing[i] == e && e.name_view() == name && forall|j: int|
                0 <= j < i ==> (#[trigger] listing[j]).name_view() != name,
        None => forall|i: int| 0 <= i < listing.len() ==> (#[trigger] listing[i]).name_view() != name,
    }
}

/// The first entry of a listing with the given name, if there is one.
pub fn find_entry(listing: Vec<DirectoryEntry>, name: &str) -> (r: Option<DirectoryEntry>)
    ensures
        first_named(listing@, name@, r),
{
    let wanted = name.to_owned();
    let mut items = listing;
    let mut i: usize = 0;
    while i < items.len()
        invariant
            items@ == listing@,
            wanted@ == name@,
            i <= items.len(),
            forall|j: int| 0 <= j < i ==> (#[trigger] listing@[j]).name_view() != name@,
        decreases items.len() - i,
    {
        if items[i].name_string() == wanted {
            let e = items.remove(i);
            assert(listing@[i as int] == e && e.name_view() == name@);
            return Some(e);
        }
        i = i + 1;
    }
    None
}

/// The data behind a projection: it lists directories, resolves single
/// entries and answers lifecycle notifications.
pub trait ProjectedFileSystemSource {
    /// The entries of the directory at `path`, in any order; an empty list
    /// for an empty or missing directory.
    fn list_directory(&self, path: &str) -> Vec<DirectoryEntry>;

    /// The entry at `path`, or `None` where there is none. The default looks
    /// the final component up in the listing of the directory part; a
    /// source with a direct lookup should override it.
    fn get_directory_entry(&self, path: &str) -> Option<DirectoryEntry> {
        let (directory, file_name) = split_path(path);
        match file_name {
            Some(name) => find_entry(self.list_directory(directory), name),
            None => None,
        }
    }

    /// Answers a lifecycle notification; `Break` asks to cancel the
    /// operation, which only the cancelable kinds allow.
    fn handle_notification(&self, notification: &Notification) -> ControlFlow<()> {
        ControlFlow::Continue(())
    }
}

} // verus!
