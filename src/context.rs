use std::collections::BTreeMap;
use std::ops::ControlFlow;

use vstd::prelude::*;

use crate::enumeration::{compare_is_consistent, next_filter, sorted_by, DirectoryIteration};
use crate::source::{
    file_name_of, first_named, DirectoryEntry, FileBasicInfo, FileCloseAction, FileRenameInfo, Notification, ProjectedFile,
    ProjectedFileSystemSource,
};
use crate::status::{
    hresult_from_win32, lemma_win32_error_is_failure, ntstatus_hresult, ntstatus_to_hresult, win32_hresult,
    ERROR_FILE_NOT_FOUND, STATUS_CANNOT_DELETE,
};

verus! {

broadcast use vstd::std_specs::btree::group_btree_axioms;

/// Host notification kind: a file was opened.
pub const NOTIFICATION_FILE_OPENED: i32 = 2;

/// Host notification kind: a file was created.
pub const NOTIFICATION_NEW_FILE_CREATED: i32 = 4;

/// Host notification kind: a file was overwritten.
pub const NOTIFICATION_FILE_OVERWRITTEN: i32 = 8;

/// Host notification kind: a file is about to be deleted.
pub const NOTIFICATION_PRE_DELETE: i32 = 16;

/// Host notification kind: a file is about to be renamed.
pub const NOTIFICATION_PRE_RENAME: i32 = 32;

/// Host notification kind: a hard link is about to be created.
pub const NOTIFICATION_PRE_SET_HARDLINK: i32 = 64;

/// Host notification kind: a file was renamed.
pub const NOTIFICATION_FILE_RENAMED: i32 = 128;

/// Host notification kind: a hard link was created.
pub const NOTIFICATION_HARDLINK_CREATED: i32 = 256;

/// Host notification kind: a handle was closed, the file unchanged.
pub const NOTIFICATION_FILE_HANDLE_CLOSED_NO_MODIFICATION: i32 = 512;

/// Host notification kind: a handle was closed, the file modified.
pub const NOTIFICATION_FILE_HANDLE_CLOSED_FILE_MODIFIED: i32 = 1024;

/// Host notification kind: a handle was closed, the file deleted.
pub const NOTIFICATION_FILE_HANDLE_CLOSED_FILE_DELETED: i32 = 2048;

/// Host notification kind: a placeholder is about to become a full file.
pub const NOTIFICATION_FILE_PRE_CONVERT_TO_FULL: i32 = 4096;

/// The notification mask that asks the host for every lifecycle event above.
pub const NOTIFY_ALL_EVENTS: u32 = 2 | 4 | 8 | 16 | 32 | 64 | 128 | 256 | 512 | 1024 | 2048 | 4096;

/// The notification that a host event of kind `kind` stands for, about the
/// file `file` (whose path is `path` where the host gave one), or `None`
/// for a kind outside the known set.
pub open spec fn notification_spec(
    kind: i32,
    file_id: u128,
    is_directory: bool,
    path: Option<Seq<char>>,
    destination: Option<Seq<char>>,
    n: Notification,
) -> bool {
    let p = match path {
        Some(p) => p,
        None => Seq::empty(),
    };
    let target_ok = |f: ProjectedFile|
        f.file_id == file_id && f.is_directory == is_directory && f.path@ == p;
    let rename_ok = |r: FileRenameInfo|
        match (r.source, path) {
            (Some(a), Some(b)) => a@ == b,
            (None, None) => true,
            _ => false,
        } && match (r.destination, destination) {
            (Some(a), Some(b)) => a@ == b,
            (None, None) => true,
            _ => false,
        };
    if kind == NOTIFICATION_NEW_FILE_CREATED {
        n is FileCreated && target_ok(n->FileCreated_0)
    } else if kind == NOTIFICATION_FILE_OPENED {
        n is FileOpened && target_ok(n->FileOpened_0)
    } else if kind == NOTIFICATION_FILE_HANDLE_CLOSED_FILE_DELETED {
        n is FileClosed && target_ok(n->FileClosed_0) && n->FileClosed_1 == FileCloseAction::Deleted
    } else if kind == NOTIFICATION_FILE_HANDLE_CLOSED_FILE_MODIFIED {
        n is FileClosed && target_ok(n->FileClosed_0) && n->FileClosed_1
            == FileCloseAction::Modified
    } else if kind == NOTIFICATION_FILE_HANDLE_CLOSED_NO_MODIFICATION {
        n is FileClosed && target_ok(n->FileClosed_0) && n->FileClosed_1
            == FileCloseAction::NoModification
    } else if kind == NOTIFICATION_FILE_OVERWRITTEN {
        n is FileOverwritten && target_ok(n->FileOverwritten_0)
    } else if kind == NOTIFICATION_PRE_RENAME {
        n is PreFileRename && rename_ok(n->PreFileRename_0)
    } else if kind == NOTIFICATION_FILE_RENAMED {
        n is FileRenamed && rename_ok(n->FileRenamed_0)
    } else if kind == NOTIFICATION_PRE_SET_HARDLINK {
        n is PreSetHardlink && target_ok(n->PreSetHardlink_0)
    } else if kind == NOTIFICATION_HARDLINK_CREATED {
        n is HardlinkCreated && target_ok(n->HardlinkCreated_0)
    } else if kind == NOTIFICATION_FILE_PRE_CONVERT_TO_FULL {
        n is FilePreConvertToFull && target_ok(n->FilePreConvertToFull_0)
    } else {
        n is PreFileDelete && target_ok(n->PreFileDelete_0)
    }
}

/// The kinds of host event that have a notification.
pub open spec fn known_notification_kind(kind: i32) -> bool {
    kind == NOTIFICATION_NEW_FILE_CREATED || kind == NOTIFICATION_FILE_OPENED || kind
        == NOTIFICATION_FILE_HANDLE_CLOSED_FILE_DELETED || kind
        == NOTIFICATION_FILE_HANDLE_CLOSED_FILE_MODIFIED || kind
        == NOTIFICATION_FILE_HANDLE_CLOSED_NO_MODIFICATION || kind == NOTIFICATION_FILE_OVERWRITTEN
        || kind == NOTIFICATION_PRE_RENAME || kind == NOTIFICATION_FILE_RENAMED || kind
        == NOTIFICATION_PRE_SET_HARDLINK || kind == NOTIFICATION_HARDLINK_CREATED || kind
        == NOTIFICATION_FILE_PRE_CONVERT_TO_FULL || kind == NOTIFICATION_PRE_DELETE
}

/// Builds the notification for a host event; `None` for an unknown kind,
/// which is ignored.
pub fn notification_from_raw(
    kind: i32,
    file_id: u128,
    is_directory: bool,
    path: Option<String>,
    destination: Option<String>,
) -> (r: Option<Notification>)
    ensures
        match r {
            Some(n) => known_notification_kind(kind) && notification_spec(
                kind,
                file_id,
                is_directory,
                match path {
                    Some(p) => Some(p@),
                    None => None,
                },
                match destination {
                    Some(d) => Some(d@),
                    None => None,
                },
                n,
            ),
            None => !known_notification_kind(kind),
        },
{
    if kind == NOTIFICATION_PRE_RENAME {
        return Some(Notification::PreFileRename(FileRenameInfo { source: path, destination }));
    }
    if kind == NOTIFICATION_FILE_RENAMED {
        return Some(Notification::FileRenamed(FileRenameInfo { source: path, destination }));
    }
    let target = ProjectedFile {
        file_id,
        is_directory,
        path: match path {
            Some(p) => p,
            None => String::new(),
        },
    };
    if kind == NOTIFICATION_NEW_FILE_CREATED {
        Some(Notification::FileCreated(target))
    } else if kind == NOTIFICATION_FILE_OPENED {
        Some(Notification::FileOpened(target))
    } else if kind == NOTIFICATION_FILE_HANDLE_CLOSED_FILE_DELETED {
        Some(Notification::FileClosed(target, FileCloseAction::Deleted))
    } else if kind == NOTIFICATION_FILE_HANDLE_CLOSED_FILE_MODIFIED {
        Some(Notification::FileClosed(target, FileCloseAction::Modified))
    } else if kind == NOTIFICATION_FILE_HANDLE_CLOSED_NO_MODIFICATION {
        Some(Notification::FileClosed(target, FileCloseAction::NoModification))
    } else if kind == NOTIFICATION_FILE_OVERWRITTEN {
        Some(Notification::FileOverwritten(target))
    } else if kind == NOTIFICATION_PRE_SET_HARDLINK {
        Some(Notification::PreSetHardlink(target))
    } else if kind == NOTIFICATION_HARDLINK_CREATED {
        Some(Notification::HardlinkCreated(target))
    } else if kind == NOTIFICATION_FILE_PRE_CONVERT_TO_FULL {
        Some(Notification::FilePreConvertToFull(target))
    } else if kind == NOTIFICATION_PRE_DELETE {
        Some(Notification::PreFileDelete(target))
    } else {
        None
    }
}

/// The status for the host after the source answered a notification: a
/// `Break` on a cancelable kind vetoes the operation with "cannot delete";
/// any other answer lets it go on.
pub open spec fn notification_status(cancelable: bool, response: ControlFlow<()>) -> Result<
    (),
    i32,
> {
    if cancelable && response is Break {
        Err(ntstatus_hresult(STATUS_CANNOT_DELETE))
    } else {
        Ok(())
    }
}

pub fn notification_result(notification: &Notification, response: ControlFlow<()>) -> (r: Result<
    (),
    i32,
>)
    ensures
        r == notification_status(notification.cancelable_spec(), response),
{
    match response {
        ControlFlow::Break(_) => {
            if notification.is_cancelable() {
                Err(ntstatus_to_hresult(STATUS_CANNOT_DELETE))
            } else {
                Ok(())
            }
        },
        ControlFlow::Continue(_) => Ok(()),
    }
}

/// A `Break` from the source on a cancelable event makes the operation fail
/// with a failure status; a `Break` on any other event, or a `Continue`,
/// lets the operation go on.
pub proof fn lemma_break_vetoes_only_cancelable(n: Notification, response: ControlFlow<()>)
    ensures
        n.cancelable_spec() && response is Break ==> notification_status(
            n.cancelable_spec(),
            response,
        ) == Err::<(), i32>(ntstatus_hresult(STATUS_CANNOT_DELETE)) && ntstatus_hresult(
            STATUS_CANNOT_DELETE,
        ) < 0,
        !(n.cancelable_spec() && response is Break) ==> notification_status(
            n.cancelable_spec(),
            response,
        ) == Ok::<(), i32>(()),
{
    assert((-1073741535i32 | 0x1000_0000i32) < 0) by (bit_vector);
}

/// The placeholder record for a path, given what the source found there:
/// "file not found" where it found nothing.
pub open spec fn placeholder_status(entry: Option<DirectoryEntry>) -> Result<FileBasicInfo, i32> {
    match entry {
        Some(e) => Ok(e.basic_info_spec()),
        None => Err(win32_hresult(ERROR_FILE_NOT_FOUND)),
    }
}

pub fn placeholder_result(entry: Option<DirectoryEntry>) -> (r: Result<FileBasicInfo, i32>)
    ensures
        r == placeholder_status(entry),
{
    match entry {
        Some(e) => Ok(e.get_basic_info()),
        None => Err(hresult_from_win32(ERROR_FILE_NOT_FOUND)),
    }
}

/// A path that the source does not hold is reported as "file not found",
/// never as another status and never as success: whether it stands at the
/// top level or below a directory that does not exist (whose listing is
/// empty), looking its final component up in the listing of its directory
/// finds nothing.
pub proof fn lemma_missing_path_not_found(
    listing: Seq<DirectoryEntry>,
    path: Seq<char>,
    found: Option<DirectoryEntry>,
)
    requires
        forall|i: int| 0 <= i < listing.len() ==> (#[trigger] listing[i]).name_view() != file_name_of(path),
        first_named(listing, file_name_of(path), found),
    ensures
        found is None,
        placeholder_status(found) == Err::<FileBasicInfo, i32>(win32_hresult(ERROR_FILE_NOT_FOUND)),
        win32_hresult(ERROR_FILE_NOT_FOUND) < 0,
{
    lemma_win32_error_is_failure(ERROR_FILE_NOT_FOUND);
}

/// The state that all callbacks of one projection share: the data source
/// and the table of open listing sessions, keyed by session id.
pub struct ProjectionContext<S: ProjectedFileSystemSource> {
    source: S,
    directory_enumerations: BTreeMap<u128, DirectoryIteration>,
}

impl<S: ProjectedFileSystemSource> ProjectionContext<S> {
    /// The open sessions.
    pub closed spec fn sessions(&self) -> Map<u128, DirectoryIteration> {
        self.directory_enumerations@
    }

    pub closed spec fn source_spec(&self) -> S {
        self.source
    }

    /// Every open session is well formed and filed under its own id.
    pub open spec fn wf(&self) -> bool {
        forall|id: u128|
            #[trigger] self.sessions().contains_key(id) ==> self.sessions()[id].wf()
                && self.sessions()[id].id_spec() == id
    }

    pub fn new(source: S) -> (r: Self)
        ensures
            r.wf(),
            r.sessions() == Map::<u128, DirectoryIteration>::empty(),
            r.source_spec() == source,
    {
        ProjectionContext { source, directory_enumerations: BTreeMap::new() }
    }

    pub fn source(&self) -> (r: &S)
        ensures
            *r == self.source_spec(),
    {
        &self.source
    }

    /// Opens session `id` over `entries`, sorted by `compare`. An open
    /// session with the same id is replaced; the result says whether there
    /// was one.
    pub fn register_listing<C: Fn(&DirectoryEntry, &DirectoryEntry) -> i32>(
        &mut self,
        id: u128,
        entries: Vec<DirectoryEntry>,
        compare: &C,
    ) -> (r: bool)
        requires
            old(self).wf(),
            compare_is_consistent(*compare),
        ensures
            final(self).wf(),
            r == old(self).sessions().contains_key(id),
            final(self).sessions().dom() == old(self).sessions().dom().insert(id),
            forall|k: u128|
                k != id && #[trigger] old(self).sessions().contains_key(k)
                    ==> final(self).sessions()[k] == old(self).sessions()[k],
            ({
                let s = final(self).sessions()[id];
                &&& s.entries_spec().to_multiset() == entries@.to_multiset()
                &&& sorted_by(*compare, s.entries_spec())
                &&& s.cursor() == 0
                &&& s.filter() == None::<Seq<u16>>
            }),
            final(self).source_spec() == old(self).source_spec(),
    {
        let session = DirectoryIteration::from_unsorted(id, entries, compare);
        let previous = self.directory_enumerations.insert(id, session);
        proof {
            assert(self.sessions() == old(self).sessions().insert(id, session));
            assert(self.sessions().dom() =~= old(self).sessions().dom().insert(id));
        }
        previous.is_some()
    }

    /// Opens session `id` over the source's listing of `target`.
    pub fn register_enumeration<C: Fn(&DirectoryEntry, &DirectoryEntry) -> i32>(
        &mut self,
        target: &str,
        id: u128,
        compare: &C,
    ) -> (r: bool)
        requires
            old(self).wf(),
            compare_is_consistent(*compare),
        ensures
            final(self).wf(),
            r == old(self).sessions().contains_key(id),
            final(self).sessions().dom() == old(self).sessions().dom().insert(id),
            forall|k: u128|
                k != id && #[trigger] old(self).sessions().contains_key(k)
                    ==> final(self).sessions()[k] == old(self).sessions()[k],
            sorted_by(*compare, final(self).sessions()[id].entries_spec()),
            final(self).sessions()[id].cursor() == 0,
            final(self).sessions()[id].filter() == None::<Seq<u16>>,
            final(self).source_spec() == old(self).source_spec(),
    {
        let entries = self.source.list_directory(target);
        self.register_listing(id, entries, compare)
    }

    /// Closes session `id`; the result says whether it was open. Closing a
    /// session that is not open changes nothing.
    pub fn finish_enumeration(&mut self, id: u128) -> (r: bool)
        requires
            old(self).wf(),
        ensures
            final(self).wf(),
            r == old(self).sessions().contains_key(id),
            final(self).sessions() == old(self).sessions().remove(id),
            final(self).source_spec() == old(self).source_spec(),
    {
        let r = self.directory_enumerations.remove(&id).is_some();
        proof {
            assert forall|k: u128| #[trigger] self.sessions().contains_key(k) implies self.sessions()[
                k
            ].wf() && self.sessions()[k].id_spec() == k by {
                assert(old(self).sessions().contains_key(k));
            }
        }
        r
    }

    /// Takes session `id` out of the table and begins a listing request on
    /// it (see `DirectoryIteration::begin_get`). `None` when no such
    /// session is open: the listing is over, and the request succeeds with
    /// no output.
    pub fn begin_enumeration_request(
        &mut self,
        id: u128,
        restart: bool,
        search_expression: Option<Vec<u16>>,
    ) -> (r: Option<DirectoryIteration>)
        requires
            old(self).wf(),
        ensures
            final(self).wf(),
            final(self).sessions() == old(self).sessions().remove(id),
            final(self).source_spec() == old(self).source_spec(),
            match r {
                Some(s) => {
                    let o = old(self).sessions()[id];
                    &&& old(self).sessions().contains_key(id)
                    &&& s.wf()
                    &&& s.id_spec() == id
                    &&& s.entries_spec() == o.entries_spec()
                    &&& s.cursor() == if restart {
                        0
                    } else {
                        o.cursor()
                    }
                    &&& s.filter() == next_filter(
                        o.filter(),
                        restart,
                        match search_expression {
                            Some(e) => Some(e@),
                            None => None,
                        },
                    )
                },
                None => !old(self).sessions().contains_key(id),
            },
    {
        match self.directory_enumerations.remove(&id) {
            Some(mut session) => {
                session.begin_get(restart, search_expression);
                Some(session)
            },
            None => None,
        }
    }

    /// Files a session back under its id once a request on it is over.
    pub fn restore_enumeration(&mut self, session: DirectoryIteration)
        requires
            old(self).wf(),
            session.wf(),
        ensures
            final(self).wf(),
            final(self).sessions() == old(self).sessions().insert(session.id_spec(), session),
            final(self).source_spec() == old(self).source_spec(),
    {
        let id = session.id();
        self.directory_enumerations.insert(id, session);
        proof {
            assert forall|k: u128| #[trigger] self.sessions().contains_key(k) implies self.sessions()[
                k
            ].wf() && self.sessions()[k].id_spec() == k by {
                if k != id {
                    assert(old(self).sessions().contains_key(k));
                }
            }
        }
    }

    /// The placeholder record for `path`: the source's entry there, or
    /// "file not found".
    pub fn placeholder_info(&self, path: &str) -> (r: Result<FileBasicInfo, i32>)
        ensures
            exists|e: Option<DirectoryEntry>| r == placeholder_status(e),
    {
        let entry = self.source.get_directory_entry(path);
        placeholder_result(entry)
    }

    /// Hands a notification to the source and gives the status for the host.
    pub fn notify(&self, notification: &Notification) -> (r: Result<(), i32>)
        ensures
            !notification.cancelable_spec() ==> r == Ok::<(), i32>(()),
            r is Err ==> r == Err::<(), i32>(ntstatus_hresult(STATUS_CANNOT_DELETE)),
    {
        let response = self.source.handle_notification(notification);
        notification_result(notification, response)
    }
}

} // verus!
