//! The log as its connections share it.
//!
//! Many connections work on one log at once. Each asks for one operation at
//! a time; the driver performs the operations of different connections
//! in whatever order they come. This module describes what an operation does
//! to the log file and to the submission lock, and proves what the protocol
//! guarantees of every run that a faithful driver can produce: appends never
//! collide, pages lie one after the other and are never written over, a page
//! reads back as it was appended, and what is reported complete is durable.
//!
//! Nothing here is executable. The connections are those of `command`, seen
//! through their views.

use crate::action::Action;
use crate::command::{ConnectionView, Outcome, Phase};
use crate::pagecache::common::PAGE_SIZE;
use crate::wire::{received, CountWidth};
use vstd::prelude::*;

verus! {

/// The log file and its lock.
pub struct LogView {
    /// The file's length when the log was opened.
    pub start: nat,
    /// What the file holds now.
    pub bytes: Seq<u8>,
    /// The connection that holds the submission lock, if any does.
    pub holder: Option<int>,
    /// The pointers that the appends yielded, the first append first.
    pub history: Seq<u64>,
    /// The page that each append wrote, by the pointer that it yielded.
    pub pages: Map<u64, Seq<u8>>,
    /// Whether a write has failed: it may have left bytes behind.
    pub torn: bool,
    /// How much of the file, from its beginning, a completed flush covers.
    pub durable: nat,
}

impl LogView {
    /// The file's length now.
    pub open spec fn length(self) -> nat {
        self.bytes.len()
    }

    /// What a read of one page at `offset` finds: the bytes of the file from
    /// there on, and zeros where the file has ended.
    pub open spec fn page_at(self, offset: nat) -> Seq<u8> {
        Seq::new(
            PAGE_SIZE as nat,
            |i: int|
                if offset + i < self.bytes.len() {
                    self.bytes[offset + i]
                } else {
                    0u8
                },
        )
    }

    /// Whether `file` may be what is found after a crash: it has kept at
    /// least what a completed flush covered.
    pub open spec fn survives_as(self, file: Seq<u8>) -> bool {
        &&& self.durable <= file.len()
        &&& forall|i: int| 0 <= i < self.durable ==> file[i] == self.bytes[i]
    }
}

/// The file `bytes` after `page` was written into it at `offset`.
pub open spec fn written_at(bytes: Seq<u8>, offset: nat, page: Seq<u8>) -> Seq<u8> {
    Seq::new(
        if offset + page.len() > bytes.len() {
            offset + page.len()
        } else {
            bytes.len()
        },
        |i: int|
            if offset <= i < offset + page.len() {
                page[i - offset]
            } else if i < bytes.len() {
                bytes[i]
            } else {
                0u8
            },
    )
}

/// The log and the connections that work on it.
pub struct System<E> {
    /// The log.
    pub log: LogView,
    /// The connections.
    pub connections: Seq<ConnectionView<E>>,
    /// For each connection, the length that the file had when the
    /// connection's flush was handed to the ring.
    pub barriers: Seq<nat>,
}

/// One operation that ended: the pending one of connection `who`.
pub struct Event<E> {
    /// The connection whose pending operation ended.
    pub who: int,
    /// How it ended.
    pub completion: Result<u64, E>,
    /// The buffer that it filled.
    pub data: Seq<u8>,
    /// The bytes that it left behind at the end of the file although it
    /// failed.
    pub left: Seq<u8>,
}

/// Whether two pointers are at least a page apart.
pub open spec fn apart(a: u64, b: u64) -> bool {
    a + PAGE_SIZE <= b || b + PAGE_SIZE <= a
}

impl<E> System<E> {
    /// A log file that holds `bytes`, unlocked, and one fresh connection for
    /// each of `widths`.
    pub open spec fn initial(bytes: Seq<u8>, widths: Seq<CountWidth>) -> System<E> {
        System {
            log: LogView {
                start: bytes.len(),
                bytes,
                holder: None,
                history: Seq::empty(),
                pages: Map::empty(),
                torn: false,
                durable: 0,
            },
            connections: Seq::new(widths.len(), |i: int| ConnectionView::initial(widths[i])),
            barriers: Seq::new(widths.len(), |i: int| 0nat),
        }
    }

    /// Whether `i` is a connection of the system.
    pub open spec fn has(self, i: int) -> bool {
        0 <= i < self.connections.len()
    }

    /// Whether `event` can happen. The lock is granted only when it is free,
    /// and granting it does not fail. The length that is reported is the
    /// file's length. A write that succeeds wrote its whole page; one that
    /// fails left at most a page behind, at the end of the file. A read of a
    /// page that succeeds delivered what the file holds there, as far as the
    /// file goes. Offsets stay within 64 bits.
    pub open spec fn possible(self, event: Event<E>) -> bool {
        let connection = self.connections[event.who];
        &&& self.has(event.who)
        &&& connection.accepts(event.completion)
        &&& self.log.length() + event.left.len() <= u64::MAX
        &&& connection.pending() is WritePage && event.completion is Err || event.left.len() == 0
        &&& match (connection.pending(), event.completion) {
            (Action::Lock, completion) => self.log.holder is None && completion is Ok,
            (Action::QueryLength, Ok(length)) => length == self.log.length(),
            (Action::WritePage { .. }, Ok(written)) => written == PAGE_SIZE,
            (Action::WritePage { .. }, Err(_)) => event.left.len() <= PAGE_SIZE,
            (Action::ReadPage { offset }, Ok(count)) => received(
                event.data,
                count as nat,
                PAGE_SIZE as nat,
            ) == self.log.page_at(offset as nat),
            _ => true,
        }
    }

    /// The log after `event`.
    pub open spec fn log_after(self, event: Event<E>) -> LogView {
        let log = self.log;
        let connection = self.connections[event.who];
        match (connection.pending(), event.completion) {
            (Action::Lock, Ok(_)) => LogView { holder: Some(event.who), ..log },
            (Action::Unlock, _) => LogView { holder: None, ..log },
            (Action::WritePage { offset }, Ok(written)) => LogView {
                bytes: written_at(log.bytes, offset as nat, connection.buffer),
                history: log.history.push((offset + written) as u64),
                pages: log.pages.insert((offset + written) as u64, connection.buffer),
                ..log
            },
            (Action::WritePage { .. }, Err(_)) => LogView {
                bytes: log.bytes + event.left,
                torn: true,
                ..log
            },
            (Action::AwaitFlush, Ok(_)) => LogView {
                durable: if self.barriers[event.who] > log.durable {
                    self.barriers[event.who]
                } else {
                    log.durable
                },
                ..log
            },
            _ => log,
        }
    }

    /// The system after `event`.
    pub open spec fn after(self, event: Event<E>) -> System<E> {
        let connection = self.connections[event.who];
        System {
            log: self.log_after(event),
            connections: self.connections.update(
                event.who,
                connection.step(event.completion, event.data),
            ),
            barriers: if connection.pending() is SubmitFlush && event.completion is Ok {
                self.barriers.update(event.who, self.log.length())
            } else {
                self.barriers
            },
        }
    }

    /// Whether each of `events` can happen in its turn.
    pub open spec fn admits(self, events: Seq<Event<E>>) -> bool
        decreases events.len(),
    {
        events.len() > 0 ==> self.admits(events.drop_last()) && self.run(
            events.drop_last(),
        ).possible(events.last())
    }

    /// The system after `events`.
    pub open spec fn run(self, events: Seq<Event<E>>) -> System<E>
        decreases events.len(),
    {
        if events.len() == 0 {
            self
        } else {
            self.run(events.drop_last()).after(events.last())
        }
    }

    /// What holds between connection `i` and the log.
    pub open spec fn settled(self, i: int) -> bool {
        let connection = self.connections[i];
        let appended = connection.appended;
        &&& connection.wf()
        &&& connection.holds_lock() <==> self.log.holder == Some(i)
        &&& connection.phase matches Phase::WriteAppend { offset } ==> offset == self.log.length()
        &&& connection.holds_lock() && !(connection.phase is Abandon) && appended.len() > 0
            ==> appended.last() == self.log.length()
        &&& forall|k: int|
            0 <= k < appended.len() ==> self.log.pages.dom().contains(#[trigger] appended[k])
                && appended[k] <= self.log.length()
        &&& forall|k: int|
            0 <= k < appended.len() ==> #[trigger] appended[k] == appended[0] + PAGE_SIZE * k
        &&& self.barriers[i] <= self.log.length()
        &&& connection.phase is WriteRelease || connection.phase is WriteDurable
            ==> appended.last() <= self.barriers[i]
        &&& connection.outcome() == Some(Outcome::<E>::Completed) && appended.len() > 0
            ==> appended.last() <= self.log.durable
    }

    /// Whether the pointers of two different connections are all a page
    /// apart.
    pub open spec fn disjoint(self, i: int, j: int) -> bool {
        forall|k: int, m: int|
            0 <= k < self.connections[i].appended.len() && 0 <= m
                < self.connections[j].appended.len() ==> apart(
                #[trigger] self.connections[i].appended[k],
                #[trigger] self.connections[j].appended[m],
            )
    }

    /// Whether the file holds, before the pointer `ptr`, the page that the
    /// append with that pointer wrote.
    pub open spec fn kept(self, ptr: u64) -> bool {
        let page = self.log.pages[ptr];
        &&& page.len() == PAGE_SIZE
        &&& self.log.start + PAGE_SIZE <= ptr <= self.log.length()
        &&& forall|i: int| 0 <= i < PAGE_SIZE ==> self.log.bytes[ptr - PAGE_SIZE + i] == page[i]
    }

    /// What holds of every system that a run can reach.
    pub open spec fn inv(self) -> bool {
        &&& self.barriers.len() == self.connections.len()
        &&& self.log.start <= self.log.length() <= u64::MAX
        &&& self.log.durable <= self.log.length()
        &&& self.log.holder matches Some(holder) ==> self.has(holder)
        &&& forall|i: int| self.has(i) ==> #[trigger] self.settled(i)
        &&& forall|i: int, j: int|
            self.has(i) && self.has(j) && i != j ==> #[trigger] self.disjoint(i, j)
        &&& forall|ptr: u64| self.log.pages.dom().contains(ptr) ==> #[trigger] self.kept(ptr)
        &&& !self.log.torn ==> {
            &&& self.log.length() == self.log.start + PAGE_SIZE * self.log.history.len()
            &&& forall|k: int|
                0 <= k < self.log.history.len() ==> #[trigger] self.log.history[k]
                    == self.log.start + PAGE_SIZE * (k + 1)
        }
    }

    /// The system at its beginning is as `inv` says.
    pub proof fn lemma_initial(bytes: Seq<u8>, widths: Seq<CountWidth>)
        requires
            bytes.len() <= u64::MAX,
        ensures
            Self::initial(bytes, widths).inv(),
    {
        let system = Self::initial(bytes, widths);
        assert forall|i: int| system.has(i) implies #[trigger] system.settled(i) by {}
        assert forall|i: int, j: int|
            system.has(i) && system.has(j) && i != j implies #[trigger] system.disjoint(i, j) by {}
    }

    /// An event that can happen leaves the system as `inv` says. It leaves
    /// every page that was appended before as it was, and takes nothing that
    /// a flush covered out of the file.
    pub proof fn lemma_after(self, event: Event<E>)
        requires
            self.inv(),
            self.possible(event),
        ensures
            self.after(event).inv(),
            self.after(event).log.start == self.log.start,
            self.after(event).connections.len() == self.connections.len(),
            forall|ptr: u64|
                self.log.pages.dom().contains(ptr) ==> self.after(event).log.pages.dom().contains(
                    ptr,
                ) && self.after(event).log.pages[ptr] == self.log.pages[ptr],
            self.log.durable <= self.after(event).log.durable,
            forall|i: int|
                0 <= i < self.log.length() ==> self.after(event).log.bytes[i] == self.log.bytes[i],
    {
        let next = self.after(event);
        let who = event.who;
        let before = self.connections[who];
        assert(self.settled(who));
        before.lemma_step_is_well_formed(event.completion, event.data);
        before.lemma_lock_discipline(event.completion, event.data);
        assert forall|ptr: u64| next.log.pages.dom().contains(ptr) implies #[trigger] next.kept(
            ptr,
        ) by {
            if self.log.pages.dom().contains(ptr) {
                assert(self.kept(ptr));
            }
        }
        assert forall|i: int| next.has(i) implies #[trigger] next.settled(i) by {
            assert(self.settled(i));
        }
        assert forall|i: int, j: int|
            next.has(i) && next.has(j) && i != j implies #[trigger] next.disjoint(i, j) by {
            assert(self.disjoint(i, j));
            assert(self.settled(i));
            assert(self.settled(j));
        }
        let pages = next.log.pages;
        assert forall|ptr: u64| self.log.pages.dom().contains(ptr) implies pages.dom().contains(ptr)
            && pages[ptr] == self.log.pages[ptr] by {
            assert(self.kept(ptr));
        }
    }

    /// Talking to the client leaves the log alone. When a connection's
    /// pending operation is to receive, to send or to finish, its end changes
    /// nothing of the log: not what the file holds, not who holds the lock,
    /// not what is durable. This holds of every step of a ping and of a
    /// command with an unknown opcode, whatever the other connections do.
    pub proof fn lemma_talking_leaves_the_log_alone(self, event: Event<E>)
        requires
            self.connections[event.who].pending().leaves_log_alone(),
        ensures
            self.after(event).log == self.log,
            self.after(event).barriers == self.barriers,
    {
    }

    /// Every run of events that can happen leaves the system as `inv` says.
    /// It has the connections it began with, and the log the length at which
    /// it was opened.
    pub proof fn lemma_run(self, events: Seq<Event<E>>)
        requires
            self.inv(),
            self.admits(events),
        ensures
            self.run(events).inv(),
            self.run(events).log.start == self.log.start,
            self.run(events).connections.len() == self.connections.len(),
        decreases events.len(),
    {
        if events.len() > 0 {
            self.lemma_run(events.drop_last());
            self.run(events.drop_last()).lemma_after(events.last());
        }
    }

    /// Successive appends lie one page after the other. In every run, the
    /// pointers that one connection's appends yielded rise by exactly one
    /// page from each to the next. As long as no write has failed, so do the
    /// pointers of all the appends to the log, whichever connections made
    /// them: the first lies one page after the length that the file had at
    /// the beginning, and the last is the file's length.
    pub proof fn lemma_appends_are_contiguous(
        bytes: Seq<u8>,
        widths: Seq<CountWidth>,
        events: Seq<Event<E>>,
    )
        requires
            bytes.len() <= u64::MAX,
            Self::initial(bytes, widths).admits(events),
        ensures
            ({
                let end = Self::initial(bytes, widths).run(events);
                let history = end.log.history;
                &&& forall|i: int, k: int|
                    end.has(i) && 0 < k < end.connections[i].appended.len()
                        ==> #[trigger] end.connections[i].appended[k]
                        == end.connections[i].appended[k - 1] + PAGE_SIZE
                &&& !end.log.torn ==> forall|k: int|
                    0 < k < history.len() ==> #[trigger] history[k] == history[k - 1] + PAGE_SIZE
                &&& !end.log.torn && history.len() > 0 ==> history[0] == bytes.len() + PAGE_SIZE
                    && history.last() == end.log.length()
            }),
    {
        Self::lemma_initial(bytes, widths);
        Self::initial(bytes, widths).lemma_run(events);
        let end = Self::initial(bytes, widths).run(events);
        assert forall|i: int, k: int|
            end.has(i) && 0 < k < end.connections[i].appended.len()
                implies #[trigger] end.connections[i].appended[k]
            == end.connections[i].appended[k - 1] + PAGE_SIZE by {
            assert(end.settled(i));
        }
    }

    /// Appends never collide. In every run, any two pointers that appends
    /// yielded, to one connection or to two, are at least a page apart: no
    /// two pages share a byte of the file.
    pub proof fn lemma_appends_never_collide(
        bytes: Seq<u8>,
        widths: Seq<CountWidth>,
        events: Seq<Event<E>>,
        i: int,
        k: int,
        j: int,
        m: int,
    )
        requires
            bytes.len() <= u64::MAX,
            Self::initial(bytes, widths).admits(events),
            Self::initial(bytes, widths).run(events).has(i),
            Self::initial(bytes, widths).run(events).has(j),
            0 <= k < Self::initial(bytes, widths).run(events).connections[i].appended.len(),
            0 <= m < Self::initial(bytes, widths).run(events).connections[j].appended.len(),
            i != j || k != m,
        ensures
            apart(
                Self::initial(bytes, widths).run(events).connections[i].appended[k],
                Self::initial(bytes, widths).run(events).connections[j].appended[m],
            ),
    {
        Self::lemma_initial(bytes, widths);
        Self::initial(bytes, widths).lemma_run(events);
        let end = Self::initial(bytes, widths).run(events);
        assert(end.settled(i));
        if i != j {
            assert(end.disjoint(i, j));
        }
    }

    /// A page reads back as it was appended. In every run, the file holds
    /// each appended page in the page-sized range that ends at the page's
    /// pointer, whatever was appended since. A read command for the offset
    /// one page before the pointer therefore answers with that page.
    pub proof fn lemma_page_reads_back(
        bytes: Seq<u8>,
        widths: Seq<CountWidth>,
        events: Seq<Event<E>>,
        i: int,
        k: int,
        read: Event<E>,
    )
        requires
            bytes.len() <= u64::MAX,
            Self::initial(bytes, widths).admits(events),
            Self::initial(bytes, widths).run(events).has(i),
            0 <= k < Self::initial(bytes, widths).run(events).connections[i].appended.len(),
            Self::initial(bytes, widths).run(events).possible(read),
            read.completion is Ok,
            Self::initial(bytes, widths).run(events).connections[read.who].phase
                matches Phase::ReadPage { offset } && offset + PAGE_SIZE == Self::initial(
                bytes,
                widths,
            ).run(events).connections[i].appended[k],
        ensures
            ({
                let end = Self::initial(bytes, widths).run(events);
                let ptr = end.connections[i].appended[k];
                let reader = end.after(read).connections[read.who];
                &&& end.log.pages.dom().contains(ptr)
                &&& end.log.page_at((ptr - PAGE_SIZE) as nat) == end.log.pages[ptr]
                &&& reader.pending() is Send
                &&& reader.buffer == end.log.pages[ptr]
            }),
    {
        Self::lemma_initial(bytes, widths);
        Self::initial(bytes, widths).lemma_run(events);
        let end = Self::initial(bytes, widths).run(events);
        let ptr = end.connections[i].appended[k];
        assert(end.settled(i));
        assert(end.kept(ptr));
    }

    /// What is reported complete is durable. In every run, when a write has
    /// ended as completed, it has appended as many pages as its byte count
    /// takes, and a flush that has completed covers every one of them:
    /// whatever file a crash leaves, as long as it has kept what a completed
    /// flush covered, holds each of those pages before its pointer.
    pub proof fn lemma_completed_write_is_durable(
        bytes: Seq<u8>,
        widths: Seq<CountWidth>,
        events: Seq<Event<E>>,
        i: int,
        k: int,
        file: Seq<u8>,
    )
        requires
            bytes.len() <= u64::MAX,
            Self::initial(bytes, widths).admits(events),
            Self::initial(bytes, widths).run(events).has(i),
            Self::initial(bytes, widths).run(events).connections[i].outcome() == Some(
                Outcome::<E>::Completed,
            ),
            0 <= k < Self::initial(bytes, widths).run(events).connections[i].appended.len(),
            Self::initial(bytes, widths).run(events).log.survives_as(file),
        ensures
            ({
                let end = Self::initial(bytes, widths).run(events);
                let connection = end.connections[i];
                let ptr = connection.appended[k];
                &&& connection.appended.len() == connection.pages()
                &&& PAGE_SIZE <= ptr <= end.log.durable
                &&& file.subrange(ptr - PAGE_SIZE, ptr as int) == end.log.pages[ptr]
            }),
    {
        Self::lemma_initial(bytes, widths);
        Self::initial(bytes, widths).lemma_run(events);
        let end = Self::initial(bytes, widths).run(events);
        let ptr = end.connections[i].appended[k];
        assert(end.settled(i));
        assert(end.kept(ptr));
    }
}

} // verus!
