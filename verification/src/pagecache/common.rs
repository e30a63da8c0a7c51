//! The fixed-size page model: the page size, disk pointers and page handles.

use crate::action::Action;
use vstd::prelude::*;

verus! {

/// Size in bytes of every page of the log.
pub const PAGE_SIZE: usize = 4096;

/// The number of pages that `bytes` bytes take: the quotient by the page
/// size, rounded up.
pub open spec fn pages_for(bytes: nat) -> nat {
    (bytes + 4095) / 4096
}

/// The number of pages that `bytes` bytes take. The last page may be filled
/// only in part.
pub fn page_count(bytes: u64) -> (pages: u64)
    ensures
        pages == pages_for(bytes as nat),
{
    let mut pages: u64 = bytes / (PAGE_SIZE as u64);
    if bytes % (PAGE_SIZE as u64) != 0 {
        pages += 1;
    }
    pages
}

/// `pages_for` is the least number of pages that hold `bytes` bytes.
pub proof fn lemma_pages_for_is_least(bytes: nat, pages: nat)
    ensures
        pages_for(bytes) * PAGE_SIZE >= bytes,
        pages * PAGE_SIZE >= bytes ==> pages_for(bytes) <= pages,
{
}

/// A byte offset into the log file.
#[derive(Clone, Copy, PartialEq, Eq, Structural, Debug)]
pub struct DiskPtr(u64);

impl View for DiskPtr {
    type V = u64;

    closed spec fn view(&self) -> u64 {
        self.0
    }
}

impl DiskPtr {
    /// The pointer that an append yields: the page was written where the
    /// file ended, at `length`, and `written` bytes of it went out.
    pub fn new(length: u64, written: u64) -> (ptr: DiskPtr)
        requires
            length + written <= u64::MAX,
        ensures
            ptr@ == length + written,
    {
        DiskPtr(length + written)
    }

    /// A pointer to a previously known offset.
    pub fn load(offset: u64) -> (ptr: DiskPtr)
        ensures
            ptr@ == offset,
    {
        DiskPtr(offset)
    }

    /// The offset, as it is stored and sent.
    pub fn offset(&self) -> (offset: u64)
        ensures
            offset == self@,
    {
        self.0
    }

    /// The read of the page at this pointer: one page, from the pointer's
    /// offset.
    pub fn read(&self) -> (action: Action)
        ensures
            action == (Action::ReadPage { offset: self@ }),
    {
        Action::ReadPage { offset: self.0 }
    }

    /// Two pointers with the same offset are the same pointer.
    pub proof fn lemma_same_offset(self, other: DiskPtr)
        ensures
            self@ == other@ <==> self == other,
    {
    }
}

/// The offsets of `ptrs`, in the same order.
pub open spec fn offsets(ptrs: Seq<DiskPtr>) -> Seq<u64> {
    ptrs.map_values(|ptr: DiskPtr| ptr@)
}

/// A page of the log: its pointer and the file that holds it. The page's
/// bytes are in the file, not here.
pub struct Page<'p, F> {
    disk: DiskPtr,
    file: &'p F,
}

impl<'p, F> Page<'p, F> {
    /// The pointer that names the page.
    pub closed spec fn spec_ptr(&self) -> DiskPtr {
        self.disk
    }

    /// The file that holds the page.
    pub closed spec fn spec_file(&self) -> &'p F {
        self.file
    }

    /// The page at `ptr` in `file`.
    pub fn new(ptr: DiskPtr, file: &'p F) -> (page: Page<'p, F>)
        ensures
            page.spec_ptr() == ptr,
            page.spec_file() == file,
    {
        Page { disk: ptr, file }
    }

    /// The pointer that names the page.
    pub fn ptr(&self) -> (ptr: DiskPtr)
        ensures
            ptr == self.spec_ptr(),
    {
        self.disk
    }

    /// The file that holds the page.
    pub fn file(&self) -> (file: &'p F)
        ensures
            file == self.spec_file(),
    {
        self.file
    }

    /// The read of this page, to be made on the page's file.
    pub fn read(&self) -> (action: Action)
        ensures
            action == (Action::ReadPage { offset: self.spec_ptr()@ }),
    {
        self.disk.read()
    }
}

} // verus!
