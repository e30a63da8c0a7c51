//! The commit log and the groups of pages written to it.

use crate::action::Action;
use crate::pagecache::common::{DiskPtr, Page};
use vstd::prelude::*;

verus! {

/// The commit log: the open log file, its length when it was opened, and the
/// lock that orders submissions into the ring.
///
/// The lock guards the order in which appends and flushes enter the ring. It
/// does not guard the file's bytes, and it is given up before a flush has
/// completed.
pub struct Log<F, L> {
    file: F,
    size: u64,
    submition_lock: L,
}

impl<F, L> Log<F, L> {
    /// The log file.
    pub closed spec fn spec_file(&self) -> &F {
        &self.file
    }

    /// The length that the log file had when the log was opened.
    pub closed spec fn spec_size(&self) -> u64 {
        self.size
    }

    /// The lock that orders submissions.
    pub closed spec fn spec_submition_lock(&self) -> &L {
        &self.submition_lock
    }

    /// The log over `file`, which was `size` bytes long when it was opened,
    /// with `lock` to order its submissions.
    pub fn new(file: F, size: u64, lock: L) -> (log: Log<F, L>)
        ensures
            *log.spec_file() == file,
            log.spec_size() == size,
            *log.spec_submition_lock() == lock,
    {
        Log { file, size, submition_lock: lock }
    }

    /// The lock that orders submissions: whoever holds it may put appends
    /// and a flush into the ring.
    pub fn submition_lock(&self) -> (lock: &L)
        ensures
            lock == self.spec_submition_lock(),
    {
        &self.submition_lock
    }

    /// The log file.
    pub fn file(&self) -> (file: &F)
        ensures
            file == self.spec_file(),
    {
        &self.file
    }

    /// The length that the log file had when the log was opened. Appends do
    /// not go by it: each asks the file system anew.
    pub fn size(&self) -> (size: u64)
        ensures
            size == self.spec_size(),
    {
        self.size
    }

    /// The page that an append to this log yields: it was written where the
    /// file ended, at `length`, and `written` bytes of it went out.
    pub fn new_page(&self, length: u64, written: u64) -> (page: Page<'_, F>)
        requires
            length + written <= u64::MAX,
        ensures
            page.spec_ptr()@ == length + written,
            page.spec_file() == self.spec_file(),
    {
        let ptr = DiskPtr::new(length, written);
        Page::new(ptr, &self.file)
    }

    /// The flush of this log: a durability barrier for the log file, ordered
    /// after the appends that were submitted before it.
    pub fn flush(&self) -> (action: Action)
        ensures
            action == Action::SubmitFlush,
    {
        Action::SubmitFlush
    }
}

/// Pages that belong to one logical write, in the order in which they were
/// appended.
pub struct Commit<'c, F> {
    pages: Vec<Page<'c, F>>,
}

impl<'c, F> Commit<'c, F> {
    /// The pages of the commit, in order.
    pub closed spec fn spec_pages(&self) -> Seq<Page<'c, F>> {
        self.pages@
    }

    /// The commit of `pages`.
    pub fn new(pages: Vec<Page<'c, F>>) -> (commit: Commit<'c, F>)
        ensures
            commit.spec_pages() == pages@,
    {
        Commit { pages }
    }

    /// The pages of the commit, in order.
    pub fn pages(&self) -> (pages: &Vec<Page<'c, F>>)
        ensures
            pages@ == self.spec_pages(),
    {
        &self.pages
    }
}

} // verus!
