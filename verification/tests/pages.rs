use pagestore::action::Action;
use pagestore::log::{Commit, Log};
use pagestore::pagecache::common::{page_count, DiskPtr, Page, PAGE_SIZE};

#[test]
fn page_size_is_4096() {
    assert_eq!(PAGE_SIZE, 4096);
}

#[test]
fn no_bytes_take_no_page() {
    assert_eq!(page_count(0), 0);
}

#[test]
fn one_full_page() {
    assert_eq!(page_count(4096), 1);
}

#[test]
fn one_byte_more_takes_a_second_page() {
    assert_eq!(page_count(4097), 2);
}

#[test]
fn page_count_rounds_up() {
    assert_eq!(page_count(1), 1);
    assert_eq!(page_count(4095), 1);
    assert_eq!(page_count(8192), 2);
    assert_eq!(page_count(8193), 3);
    assert_eq!(page_count(10 * 4096 + 17), 11);
}

#[test]
fn page_count_of_the_largest_byte_count() {
    assert_eq!(page_count(u64::MAX), 1 << 52);
    assert_eq!(page_count(u64::MAX - 4094), 1 << 52);
    assert_eq!(page_count(u64::MAX - 4095), (1 << 52) - 1);
}

#[test]
fn page_count_holds_the_bytes_and_is_least() {
    for bytes in [0u64, 1, 4095, 4096, 4097, 12287, 12288, 12289, 1 << 40] {
        let pages = page_count(bytes);
        assert!(pages as u128 * 4096 >= bytes as u128);
        assert!(pages == 0 || (pages as u128 - 1) * 4096 < bytes as u128);
    }
}

#[test]
fn pointer_of_an_append_is_length_plus_written() {
    assert_eq!(DiskPtr::new(0, 4096).offset(), 4096);
    assert_eq!(DiskPtr::new(8192, 4096).offset(), 12288);
    assert_eq!(DiskPtr::new(8192, 100).offset(), 8292);
    assert_eq!(DiskPtr::new(77, 0).offset(), 77);
    assert_eq!(DiskPtr::new(u64::MAX - 4096, 4096).offset(), u64::MAX);
}

#[test]
fn load_keeps_the_offset() {
    assert_eq!(DiskPtr::load(0).offset(), 0);
    assert_eq!(DiskPtr::load(4096).offset(), 4096);
    assert_eq!(DiskPtr::load(u64::MAX).offset(), u64::MAX);
}

#[test]
fn load_and_offset_are_inverse() {
    let ptr = DiskPtr::new(4096, 4096);
    assert_eq!(DiskPtr::load(ptr.offset()), ptr);
    assert_ne!(DiskPtr::load(ptr.offset() + 1), ptr);
}

#[test]
fn sequential_appends_are_one_page_apart() {
    let mut length = 0u64;
    let mut last = None;
    for _ in 0..5 {
        let ptr = DiskPtr::new(length, PAGE_SIZE as u64);
        if let Some(before) = last {
            assert_eq!(ptr.offset(), before + 4096);
        }
        length = ptr.offset();
        last = Some(ptr.offset());
    }
    assert_eq!(last, Some(5 * 4096));
}

#[test]
fn pointer_reads_one_page_at_its_offset() {
    assert_eq!(DiskPtr::load(8192).read(), Action::ReadPage { offset: 8192 });
    assert_eq!(DiskPtr::load(0).read(), Action::ReadPage { offset: 0 });
}

#[test]
fn page_binds_pointer_and_file() {
    let file = String::from("commit.log");
    let page = Page::new(DiskPtr::load(4096), &file);
    assert_eq!(page.ptr(), DiskPtr::load(4096));
    assert_eq!(page.file(), "commit.log");
    assert_eq!(page.read(), Action::ReadPage { offset: 4096 });
}

#[test]
fn log_keeps_file_size_and_lock() {
    let log = Log::new(String::from("commit.log"), 0, 7u8);
    assert_eq!(log.file(), "commit.log");
    assert_eq!(log.size(), 0);
    assert_eq!(*log.submition_lock(), 7);
    let reopened = Log::new(3u32, 8192, ());
    assert_eq!(*reopened.file(), 3);
    assert_eq!(reopened.size(), 8192);
}

#[test]
fn new_page_is_bound_to_the_log_file() {
    let log = Log::new(String::from("commit.log"), 0, ());
    let first = log.new_page(0, 4096);
    let second = log.new_page(4096, 4096);
    assert_eq!(first.ptr().offset(), 4096);
    assert_eq!(second.ptr().offset(), 8192);
    assert!(std::ptr::eq(first.file(), log.file()));
    assert!(std::ptr::eq(second.file(), log.file()));
    assert_eq!(log.size(), 0);
}

#[test]
fn flush_is_a_flush_submission() {
    let log = Log::new((), 0, ());
    assert_eq!(log.flush(), Action::SubmitFlush);
}

#[test]
fn commit_keeps_pages_in_order() {
    let log = Log::new(String::from("commit.log"), 0, ());
    let pages = vec![log.new_page(0, 4096), log.new_page(4096, 4096), log.new_page(8192, 4096)];
    let commit = Commit::new(pages);
    let offsets: Vec<u64> = commit.pages().iter().map(|page| page.ptr().offset()).collect();
    assert_eq!(offsets, vec![4096, 8192, 12288]);
}

#[test]
fn empty_commit() {
    let commit: Commit<'_, String> = Commit::new(Vec::new());
    assert!(commit.pages().is_empty());
}
