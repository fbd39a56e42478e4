use std::cell::RefCell;
use std::collections::BTreeMap;
use std::ops::ControlFlow;

use windows_projfs::{
    classify_load_failure, encode_native_name, find_entry, hresult_from_win32,
    io_result_to_hresult, notification_from_raw, notification_result, ntstatus_to_hresult,
    placeholder_result, sort_entries, split_path, DirectoryEntry, DirectoryInfo,
    DirectoryIteration, EntryOutcome, EnumerationStep, FileChunk, FileCloseAction,
    FileDataRequest, FileInfo, FileNameU16Cache, FileRenameInfo, LibraryLoadFailure,
    Notification, ProjectedFile, ProjectedFileSystemSource, ProjectionContext,
};

const NOT_FOUND: i32 = 0x8007_0002_u32 as i32;
const INSUFFICIENT_BUFFER: i32 = 0x8007_007A_u32 as i32;
const IO_INCOMPLETE: i32 = 0x8007_03E4_u32 as i32;
const CANNOT_DELETE: i32 = 0xD000_0121_u32 as i32;

/// Case-insensitive name order, as the host compares file names.
fn host_compare(a: &DirectoryEntry, b: &DirectoryEntry) -> i32 {
    match a.name().to_lowercase().cmp(&b.name().to_lowercase()) {
        std::cmp::Ordering::Less => -1,
        std::cmp::Ordering::Equal => 0,
        std::cmp::Ordering::Greater => 1,
    }
}

fn dir(name: &str) -> DirectoryEntry {
    DirectoryInfo { directory_name: name.to_string(), ..Default::default() }.into()
}

fn file(name: &str, size: u64) -> DirectoryEntry {
    FileInfo { file_name: name.to_string(), file_size: size, ..Default::default() }.into()
}

#[derive(Default)]
struct ListingSource {
    entries: BTreeMap<String, Vec<DirectoryEntry>>,
    veto: bool,
    seen: RefCell<Vec<Notification>>,
}

impl ProjectedFileSystemSource for ListingSource {
    fn list_directory(&self, path: &str) -> Vec<DirectoryEntry> {
        self.entries.get(path).cloned().unwrap_or_default()
    }

    fn handle_notification(&self, notification: &Notification) -> ControlFlow<()> {
        self.seen.borrow_mut().push(notification.clone());
        if self.veto {
            ControlFlow::Break(())
        } else {
            ControlFlow::Continue(())
        }
    }
}

/// A host output buffer with room for `capacity` entries.
struct HostBuffer {
    capacity: usize,
    names: Vec<String>,
    infos: Vec<windows_projfs::FileBasicInfo>,
}

impl HostBuffer {
    fn new(capacity: usize) -> Self {
        HostBuffer { capacity, names: Vec::new(), infos: Vec::new() }
    }
}

/// Runs one listing request the way the callback bridge does. `matches`
/// stands for the host's wildcard match.
fn run_get<S: ProjectedFileSystemSource>(
    context: &mut ProjectionContext<S>,
    id: u128,
    restart: bool,
    single_entry: bool,
    filter: Option<&str>,
    buffer: &mut HostBuffer,
    matches: &dyn Fn(&str, &[u16]) -> bool,
) -> Result<(), i32> {
    let filter = filter.map(|f| f.encode_utf16().collect::<Vec<u16>>());
    let mut session = match context.begin_enumeration_request(id, restart, filter) {
        Some(session) => session,
        None => return Ok(()),
    };
    let result = loop {
        let (name, info) = match session.peek_entry() {
            Some(entry) => (entry.name().to_string(), entry.get_basic_info()),
            None => break Ok(()),
        };
        let matched = match session.search_expression() {
            Some(pattern) => matches(&name, pattern),
            None => true,
        };
        let outcome = if matched {
            let fill = if buffer.names.len() < buffer.capacity {
                buffer.names.push(name);
                buffer.infos.push(info);
                Ok(())
            } else {
                Err(INSUFFICIENT_BUFFER)
            };
            EntryOutcome::from_fill_result(fill)
        } else {
            EntryOutcome::FilteredOut
        };
        match session.advance(outcome, single_entry) {
            EnumerationStep::Continue => {}
            EnumerationStep::Done => break Ok(()),
            EnumerationStep::Failed(code) => break Err(code),
        }
    };
    context.restore_enumeration(session);
    result
}

fn prefix_match(name: &str, pattern: &[u16]) -> bool {
    let units: Vec<u16> = pattern.iter().copied().take_while(|u| *u != 0).collect();
    let prefix = String::from_utf16(&units).unwrap();
    name.starts_with(prefix.trim_end_matches('*'))
}

fn no_match(_: &str, _: &[u16]) -> bool {
    false
}

/// Reads `[offset, offset + length)` of `content` through the chunked
/// transfer, as a source that refuses ranges past the end would serve it.
fn read_through_chunks(content: &[u8], offset: usize, length: usize) -> Result<Vec<u8>, i32> {
    if offset + length > content.len() {
        return Err(io_result_to_hresult(None));
    }
    let mut request = FileDataRequest::new(offset as u64, length);
    let mut delivered = vec![0u8; content.len()];
    let mut written = 0usize;
    while let Some(chunk) = request.next_chunk() {
        assert!(chunk.length <= request.buffer_length());
        let start = chunk.byte_offset as usize;
        assert_eq!(start, offset + written);
        delivered[start..start + chunk.length].copy_from_slice(&content[start..start + chunk.length]);
        written += chunk.length;
        request.chunk_delivered();
    }
    assert_eq!(written, length);
    Ok(delivered[offset..offset + length].to_vec())
}

fn metadata_source() -> ListingSource {
    let mut source = ListingSource::default();
    source.entries.insert(
        String::new(),
        vec![
            dir("Test-A"),
            dir("Test-B"),
            FileInfo {
                file_name: "My_File.txt".to_string(),
                file_attributes: 4456448,
                file_size: 667,
                creation_time: 133482410012464001,
                last_access_time: 133482410012464002,
                last_write_time: 133482410012464003,
            }
            .into(),
        ],
    );
    source.entries.insert(
        "Test-A".to_string(),
        vec![FileInfo {
            file_name: "In-A File.txt".to_string(),
            file_attributes: 4456448,
            file_size: 123,
            creation_time: 133482410012464011,
            last_access_time: 133482410012464012,
            last_write_time: 133482410012464013,
        }
        .into()],
    );
    source.entries.insert("Test-B".to_string(), vec![dir("Test-C")]);
    source.entries.insert(
        "Test-B/Test-C".to_string(),
        vec![FileInfo {
            file_name: "This_File_in_B_C.txt".to_string(),
            file_attributes: 4456448,
            file_size: 333,
            creation_time: 133482410012464021,
            last_access_time: 133482410012464022,
            last_write_time: 133482410012464023,
        }
        .into()],
    );
    source
}

#[test]
fn directory_metadata() {
    let source = metadata_source();
    let expected_all = source.entries.clone();
    let mut context = ProjectionContext::new(source);
    for (id, path) in ["", "Test-A", "Test-B", "Test-B/Test-C"].iter().enumerate() {
        let id = id as u128 + 1;
        assert!(!context.register_enumeration(path, id, &host_compare));
        let mut buffer = HostBuffer::new(usize::MAX);
        assert_eq!(run_get(&mut context, id, false, false, None, &mut buffer, &no_match), Ok(()));
        let mut expected = expected_all.get(*path).cloned().unwrap_or_default();
        expected.sort_by(|a, b| host_compare(a, b).cmp(&0));
        let names: Vec<String> = expected.iter().map(|e| e.name().to_string()).collect();
        assert_eq!(buffer.names.len(), expected.len());
        assert_eq!(buffer.names, names);
        for (info, entry) in buffer.infos.iter().zip(expected.iter()) {
            assert_eq!(*info, entry.get_basic_info());
        }
        assert!(context.finish_enumeration(id));
    }
}

#[test]
fn root_listing_is_host_sorted() {
    let mut context = ProjectionContext::new(metadata_source());
    context.register_enumeration("", 7, &host_compare);
    let mut buffer = HostBuffer::new(16);
    assert_eq!(run_get(&mut context, 7, false, false, None, &mut buffer, &no_match), Ok(()));
    assert_eq!(buffer.names, vec!["My_File.txt", "Test-A", "Test-B"]);
    let file_info = buffer.infos[0];
    assert!(!file_info.is_directory);
    assert_eq!(file_info.file_size, 667);
    assert_eq!(file_info.file_attributes, 4456448);
    assert_eq!(file_info.creation_time, 133482410012464001);
    assert_eq!(file_info.last_access_time, 133482410012464002);
    assert_eq!(file_info.last_write_time, 133482410012464003);
    assert_eq!(file_info.change_time, 133482410012464003);
    assert!(buffer.infos[1].is_directory);
    assert_eq!(buffer.infos[1].file_size, 0);
}

#[test]
fn listing_order_is_deterministic() {
    let a = vec![file("b.txt", 1), dir("A"), file("c", 2), dir("Zeta"), file("alpha", 3)];
    let mut b = a.clone();
    b.reverse();
    let sorted_a = sort_entries(a, &host_compare);
    let sorted_b = sort_entries(b, &host_compare);
    assert_eq!(sorted_a, sorted_b);
    let names: Vec<&str> = sorted_a.iter().map(|e| e.name()).collect();
    assert_eq!(names, vec!["A", "alpha", "b.txt", "c", "Zeta"]);
}

#[test]
fn sort_of_empty_listing() {
    assert!(sort_entries(Vec::new(), &host_compare).is_empty());
}

#[test]
fn buffer_full_resumes_at_same_entry() {
    let mut context = ProjectionContext::new(metadata_source());
    context.register_enumeration("", 3, &host_compare);
    let mut first = HostBuffer::new(2);
    assert_eq!(run_get(&mut context, 3, false, false, None, &mut first, &no_match), Ok(()));
    assert_eq!(first.names, vec!["My_File.txt", "Test-A"]);
    let mut second = HostBuffer::new(2);
    assert_eq!(run_get(&mut context, 3, false, false, None, &mut second, &no_match), Ok(()));
    assert_eq!(second.names, vec!["Test-B"]);
    let mut third = HostBuffer::new(2);
    assert_eq!(run_get(&mut context, 3, false, false, None, &mut third, &no_match), Ok(()));
    assert!(third.names.is_empty());
}

#[test]
fn single_entry_and_restart() {
    let mut context = ProjectionContext::new(metadata_source());
    context.register_enumeration("", 4, &host_compare);
    let mut buffer = HostBuffer::new(10);
    assert_eq!(run_get(&mut context, 4, false, true, None, &mut buffer, &no_match), Ok(()));
    assert_eq!(buffer.names, vec!["My_File.txt"]);
    run_get(&mut context, 4, false, true, None, &mut buffer, &no_match).unwrap();
    assert_eq!(buffer.names, vec!["My_File.txt", "Test-A"]);
    let mut again = HostBuffer::new(10);
    run_get(&mut context, 4, true, false, None, &mut again, &no_match).unwrap();
    assert_eq!(again.names, vec!["My_File.txt", "Test-A", "Test-B"]);
}

#[test]
fn search_expression_filters_and_restart_clears_it() {
    let mut context = ProjectionContext::new(metadata_source());
    context.register_enumeration("", 5, &host_compare);
    let mut buffer = HostBuffer::new(10);
    run_get(&mut context, 5, false, false, Some("Test*"), &mut buffer, &prefix_match).unwrap();
    assert_eq!(buffer.names, vec!["Test-A", "Test-B"]);
    let mut again = HostBuffer::new(10);
    run_get(&mut context, 5, true, false, None, &mut again, &prefix_match).unwrap();
    assert_eq!(again.names, vec!["My_File.txt", "Test-A", "Test-B"]);
}

#[test]
fn write_failure_fails_the_request() {
    let mut session = DirectoryIteration::from_unsorted(9, vec![file("a", 1), file("b", 2)], &host_compare);
    assert_eq!(session.id(), 9);
    let outcome = EntryOutcome::from_fill_result(Err(-5));
    assert_eq!(outcome, EntryOutcome::Failed(-5));
    assert_eq!(session.advance(outcome, false), EnumerationStep::Failed(-5));
    assert_eq!(session.peek_entry().map(|e| e.name().to_string()), Some("a".to_string()));
    assert_eq!(
        EntryOutcome::from_fill_result(Err(INSUFFICIENT_BUFFER)),
        EntryOutcome::BufferFull
    );
    assert_eq!(EntryOutcome::from_fill_result(Ok(())), EntryOutcome::Written);
}

#[test]
fn session_cursor_operations() {
    let mut session = DirectoryIteration::from_unsorted(1, vec![file("b", 1), file("a", 2)], &host_compare);
    assert_eq!(session.peek_entry().unwrap().name(), "a");
    assert_eq!(session.current_file_name().unwrap(), &[0x61u16, 0][..]);
    session.consume_entry();
    assert_eq!(session.peek_entry().unwrap().name(), "b");
    session.consume_entry();
    assert!(session.peek_entry().is_none());
    assert!(session.current_file_name().is_none());
    session.consume_entry();
    assert!(session.peek_entry().is_none());
    session.begin_get(false, Some(vec![0x61]));
    assert_eq!(session.search_expression().unwrap(), &vec![0x61u16, 0]);
    session.begin_get(false, Some(Vec::new()));
    assert_eq!(session.search_expression().unwrap(), &vec![0x61u16, 0]);
    session.reset_enumeration();
    assert!(session.search_expression().is_none());
    assert_eq!(session.peek_entry().unwrap().name(), "a");
}

#[test]
fn unknown_enumeration_ids_are_tolerated() {
    let mut context = ProjectionContext::new(metadata_source());
    assert!(!context.finish_enumeration(42));
    let mut buffer = HostBuffer::new(4);
    assert_eq!(run_get(&mut context, 42, true, false, None, &mut buffer, &no_match), Ok(()));
    assert!(buffer.names.is_empty());
    context.register_enumeration("", 42, &host_compare);
    assert!(context.register_enumeration("", 42, &host_compare));
    assert!(context.finish_enumeration(42));
    assert!(!context.finish_enumeration(42));
}

fn content_source() -> ListingSource {
    let mut source = ListingSource::default();
    source.entries.insert(
        String::new(),
        vec![file("file_existing.txt", 20), dir("sub-dir")],
    );
    source.entries.insert("sub-dir".to_string(), vec![file("file_existing.txt", 20)]);
    source
}

#[test]
fn file_not_found() {
    let context = ProjectionContext::new(content_source());
    assert!(context.placeholder_info("file_existing.txt").is_ok());
    assert!(context.placeholder_info("sub-dir/file_existing.txt").is_ok());
    assert!(context.placeholder_info("sub-dir\\file_existing.txt").is_ok());
    assert_eq!(context.placeholder_info("file_not_existing.txt"), Err(NOT_FOUND));
    assert_eq!(context.placeholder_info("sub-dir-x/file_existing.txt"), Err(NOT_FOUND));
    assert_eq!(context.placeholder_info("sub-dir/"), Err(NOT_FOUND));
    let info = context.placeholder_info("sub-dir").unwrap();
    assert!(info.is_directory);
    assert_eq!(context.placeholder_info("file_existing.txt").unwrap().file_size, 20);
}

#[test]
fn placeholder_result_maps_entries() {
    assert_eq!(placeholder_result(None), Err(NOT_FOUND));
    let entry = file("x", 5);
    assert_eq!(placeholder_result(Some(entry.clone())), Ok(entry.get_basic_info()));
}

#[test]
fn small_file_content() {
    let content = b"Hello World!\0".to_vec();
    assert_eq!(content.len(), 13);
    assert_eq!(read_through_chunks(&content, 0, 13), Ok(content.clone()));
    assert_eq!(read_through_chunks(&content, 6, 5), Ok(b"World".to_vec()));
    assert_eq!(read_through_chunks(&content, 13, 0), Ok(Vec::new()));
}

#[test]
fn out_of_range_read_fails() {
    let content = b"Hello World!\0".to_vec();
    let result = read_through_chunks(&content, 5, 100);
    assert_eq!(result, Err(IO_INCOMPLETE));
    assert!(IO_INCOMPLETE < 0);
}

#[test]
fn file_content_large() {
    let length = 1024 * 1024 * 64 + 766;
    let content: Vec<u8> = (0..length).map(|i| (i & 0xFF) as u8).collect();
    let read = read_through_chunks(&content, 0, length).unwrap();
    assert_eq!(read.len(), length);
    for index in 0..length {
        if read[index] != content[index] {
            panic!("content mismatch at {}", index);
        }
    }
}

#[test]
fn chunk_plan_boundaries() {
    let request = FileDataRequest::new(10, 0);
    assert_eq!(request.buffer_length(), 0);
    assert!(request.next_chunk().is_none());

    let mut request = FileDataRequest::new(100, 1024 * 1024);
    assert_eq!(request.next_chunk(), Some(FileChunk { byte_offset: 100, length: 1024 * 1024 }));
    request.chunk_delivered();
    assert!(request.next_chunk().is_none());

    let mut request = FileDataRequest::new(7, 1024 * 1024 + 1);
    assert_eq!(request.buffer_length(), 1024 * 1024);
    assert_eq!(request.next_chunk(), Some(FileChunk { byte_offset: 7, length: 1024 * 1024 }));
    request.chunk_delivered();
    assert_eq!(
        request.next_chunk(),
        Some(FileChunk { byte_offset: 7 + 1024 * 1024, length: 1 })
    );
    request.chunk_delivered();
    assert!(request.next_chunk().is_none());

    let request = FileDataRequest::new(0, 13);
    assert_eq!(request.buffer_length(), 13);
}

#[test]
fn notification_break_on_cancelable_vetoes() {
    let file = ProjectedFile { file_id: 1, is_directory: false, path: "a.txt".to_string() };
    let delete = Notification::PreFileDelete(file.clone());
    assert!(delete.is_cancelable());
    assert_eq!(notification_result(&delete, ControlFlow::Break(())), Err(CANNOT_DELETE));
    assert_eq!(notification_result(&delete, ControlFlow::Continue(())), Ok(()));
    let opened = Notification::FileOpened(file.clone());
    assert!(!opened.is_cancelable());
    assert_eq!(notification_result(&opened, ControlFlow::Break(())), Ok(()));

    let mut source = content_source();
    source.veto = true;
    let context = ProjectionContext::new(source);
    assert_eq!(context.notify(&delete), Err(CANNOT_DELETE));
    assert_eq!(context.notify(&Notification::FileClosed(file, FileCloseAction::Modified)), Ok(()));
    assert_eq!(context.source().seen.borrow().len(), 2);
}

#[test]
fn cancelable_kinds() {
    let f = ProjectedFile::default();
    let r = FileRenameInfo::default();
    assert!(Notification::PreFileRename(r.clone()).is_cancelable());
    assert!(Notification::PreSetHardlink(f.clone()).is_cancelable());
    assert!(Notification::FilePreConvertToFull(f.clone()).is_cancelable());
    assert!(!Notification::FileRenamed(r).is_cancelable());
    assert!(!Notification::FileCreated(f.clone()).is_cancelable());
    assert!(!Notification::HardlinkCreated(f.clone()).is_cancelable());
    assert!(!Notification::FileOverwritten(f).is_cancelable());
}

#[test]
fn notifications_from_host_kinds() {
    let target = ProjectedFile { file_id: 9, is_directory: true, path: "d".to_string() };
    let make = |kind| notification_from_raw(kind, 9, true, Some("d".to_string()), None);
    assert_eq!(make(4), Some(Notification::FileCreated(target.clone())));
    assert_eq!(make(2), Some(Notification::FileOpened(target.clone())));
    assert_eq!(make(2048), Some(Notification::FileClosed(target.clone(), FileCloseAction::Deleted)));
    assert_eq!(make(1024), Some(Notification::FileClosed(target.clone(), FileCloseAction::Modified)));
    assert_eq!(
        make(512),
        Some(Notification::FileClosed(target.clone(), FileCloseAction::NoModification))
    );
    assert_eq!(make(8), Some(Notification::FileOverwritten(target.clone())));
    assert_eq!(make(64), Some(Notification::PreSetHardlink(target.clone())));
    assert_eq!(make(256), Some(Notification::HardlinkCreated(target.clone())));
    assert_eq!(make(4096), Some(Notification::FilePreConvertToFull(target.clone())));
    assert_eq!(make(16), Some(Notification::PreFileDelete(target)));
    assert_eq!(make(3), None);
    assert_eq!(
        notification_from_raw(32, 1, false, Some("a".to_string()), Some("b".to_string())),
        Some(Notification::PreFileRename(FileRenameInfo {
            source: Some("a".to_string()),
            destination: Some("b".to_string()),
        }))
    );
    assert_eq!(
        notification_from_raw(128, 1, false, None, Some("b".to_string())),
        Some(Notification::FileRenamed(FileRenameInfo {
            source: None,
            destination: Some("b".to_string()),
        }))
    );
    assert_eq!(
        notification_from_raw(2, 5, false, None, None),
        Some(Notification::FileOpened(ProjectedFile {
            file_id: 5,
            is_directory: false,
            path: String::new()
        }))
    );
    assert_eq!(windows_projfs::context::NOTIFY_ALL_EVENTS, 8190);
}

#[test]
fn status_codes() {
    assert_eq!(hresult_from_win32(2), NOT_FOUND);
    assert_eq!(hresult_from_win32(0), 0);
    assert_eq!(hresult_from_win32(0x8000_4005), 0x8000_4005_u32 as i32);
    assert_eq!(hresult_from_win32(0x0001_0002), NOT_FOUND);
    assert_eq!(io_result_to_hresult(Some(2)), NOT_FOUND);
    assert_eq!(io_result_to_hresult(None), IO_INCOMPLETE);
    assert_eq!(ntstatus_to_hresult(0), 0x1000_0000);
    assert_eq!(ntstatus_to_hresult(-1073741535), CANNOT_DELETE);
}

#[test]
fn library_load_failures() {
    assert_eq!(classify_load_failure(Some(126)), LibraryLoadFailure::FeatureNotEnabled);
    assert_eq!(classify_load_failure(Some(5)), LibraryLoadFailure::LibraryError);
    assert_eq!(classify_load_failure(None), LibraryLoadFailure::LibraryError);
}

#[test]
fn native_names() {
    assert_eq!(encode_native_name("a\u{e9}\u{1d11e}"), vec![0x61, 0xE9, 0xD834, 0xDD1E, 0]);
    assert_eq!(encode_native_name(""), vec![0]);
    let mut cache = FileNameU16Cache::new();
    assert_eq!(cache.get_or_cache("Test-A".to_string()), &encode_native_name("Test-A")[..]);
    assert_eq!(cache.get_or_cache("x".to_string()), &[0x78u16, 0][..]);
    assert_eq!(cache.get_or_cache("Test-A".to_string()), &encode_native_name("Test-A")[..]);
}

#[test]
fn path_split_and_lookup() {
    assert_eq!(split_path("a/b/c.txt"), ("a/b", Some("c.txt")));
    assert_eq!(split_path("a\\c.txt"), ("a", Some("c.txt")));
    assert_eq!(split_path("c.txt"), ("", Some("c.txt")));
    assert_eq!(split_path(""), ("", None));
    assert_eq!(split_path("dir/"), ("dir", None));
    let listing = vec![file("x", 1), dir("y"), file("x", 2)];
    assert_eq!(find_entry(listing.clone(), "x"), Some(file("x", 1)));
    assert_eq!(find_entry(listing.clone(), "y"), Some(dir("y")));
    assert_eq!(find_entry(listing, "z"), None);
    assert_eq!(find_entry(Vec::new(), "z"), None);
}

#[test]
fn entry_conversions() {
    let d = DirectoryInfo {
        directory_name: "D".to_string(),
        directory_attributes: 16,
        creation_time: 1,
        last_access_time: 2,
        last_write_time: 3,
    };
    let entry: DirectoryEntry = d.clone().into();
    assert_eq!(entry, DirectoryEntry::Directory(d));
    assert_eq!(entry.name(), "D");
    assert_eq!(entry.name_string(), "D".to_string());
    let info = entry.get_basic_info();
    assert!(info.is_directory);
    assert_eq!(info.file_attributes, 16);
    assert_eq!(info.change_time, 3);
    let big = FileInfo { file_name: "f".to_string(), file_size: u64::MAX, ..Default::default() };
    assert_eq!(DirectoryEntry::from(big).get_basic_info().file_size, -1);
}
