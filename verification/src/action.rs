//! What the engine asks of whoever performs its I/O.

use vstd::prelude::*;

verus! {

/// One operation for the driver to carry out. Each is finished before the
/// engine is told of its result; only the flush is split in two, so that the
/// submission lock can be given up between handing the flush to the ring and
/// waiting for it.
#[derive(Clone, Copy, PartialEq, Eq, Structural, Debug)]
pub enum Action {
    /// Read up to `len` bytes from the client.
    Receive { len: usize },
    /// Send the connection's buffer to the client.
    Send,
    /// Take the log's submission lock.
    Lock,
    /// Ask the file system how long the log file is now.
    QueryLength,
    /// Write the connection's buffer, one page, to the log file at `offset`,
    /// and wait for the write.
    WritePage { offset: u64 },
    /// Read one page from the log file at `offset`, and wait for the read.
    ReadPage { offset: u64 },
    /// Hand a flush of the log file to the ring, without waiting for it.
    SubmitFlush,
    /// Give the submission lock up.
    Unlock,
    /// Wait for the flush that was handed to the ring.
    AwaitFlush,
    /// Nothing more: the command is over.
    Finish,
}

impl Action {
    /// Whether the action goes into the ring as a linked operation: the ring
    /// runs linked operations in the order in which they were submitted.
    /// Every operation on the log file is linked, and so is every answer to
    /// the client; reads from the client are not.
    pub open spec fn linked(self) -> bool {
        self is Send || self is WritePage || self is ReadPage || self is SubmitFlush
    }

    /// Whether the action goes into the ring as a linked operation.
    pub fn is_linked(&self) -> (linked: bool)
        ensures
            linked == self.linked(),
    {
        match self {
            Action::Send
            | Action::WritePage { .. }
            | Action::ReadPage { .. }
            | Action::SubmitFlush => true,
            _ => false,
        }
    }

    /// Whether the action puts an append or a flush into the ring.
    pub open spec fn submits_to_log(self) -> bool {
        self is WritePage || self is SubmitFlush
    }

    /// Whether the action only talks to the client, or ends the command: it
    /// leaves the log file and its lock alone.
    pub open spec fn leaves_log_alone(self) -> bool {
        self is Receive || self is Send || self is Finish
    }
}

} // verus!
