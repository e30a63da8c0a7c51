//! The command protocol of one connection.
//!
//! A connection carries one command. The client sends an opcode byte and
//! the command's payload; the engine answers a ping with one zero byte, a read
//! with the page at the offset sent, and a write by appending the pages sent
//! and flushing the log.
//!
//! `Connection` is the protocol as a state machine. It says which operation
//! is to be performed next (`pending`), and moves on when it is told how the
//! operation ended (`step`). The driver performs the operations and reports
//! each result as a `Result`: the number that the operation gave, or the I/O
//! error of type `E`, which the machine hands on unchanged.

use crate::action::Action;
use crate::pagecache::common::{offsets, page_count, pages_for, DiskPtr, PAGE_SIZE};
use crate::wire::{
    decode_byte_count, decode_offset, frame, le_value, lemma_le_value_bound, received, CountWidth,
};
use vstd::prelude::*;

verus! {

/// The opcode of a ping.
pub const OP_PING: u8 = 0;

/// The opcode of a read.
pub const OP_READ: u8 = 1;

/// The opcode of a write.
pub const OP_WRITE: u8 = 2;

/// The byte that answers a ping.
pub const ACK: u8 = 0;

/// A command of the protocol, as its opcode names it.
#[derive(Clone, Copy, PartialEq, Eq, Structural, Debug)]
pub enum Command {
    /// No payload; answered with one zero byte.
    Ping,
    /// An offset follows; answered with the page there.
    Read,
    /// A byte count and that many bytes, in whole pages, follow.
    Write,
    /// Any other opcode: nothing is done.
    Unknown,
}

impl Command {
    /// The command that `opcode` names.
    pub open spec fn spec_decode(opcode: u8) -> Command {
        if opcode == OP_PING {
            Command::Ping
        } else if opcode == OP_READ {
            Command::Read
        } else if opcode == OP_WRITE {
            Command::Write
        } else {
            Command::Unknown
        }
    }

    /// The command that `opcode` names.
    pub fn decode(opcode: u8) -> (command: Command)
        ensures
            command == Command::spec_decode(opcode),
    {
        match opcode {
            0 => Command::Ping,
            1 => Command::Read,
            2 => Command::Write,
            _ => Command::Unknown,
        }
    }
}

/// How a command ended.
#[derive(Debug)]
pub enum Outcome<E> {
    /// The command ran to its end. For a write: every page was appended, and
    /// the flush that follows them has completed.
    Completed,
    /// A read from the client delivered no bytes where some were expected.
    /// The command was given up; this is no error.
    Aborted,
    /// An operation failed with this I/O error.
    Failed(E),
}

/// Where a connection stands: which operation it waits for.
#[derive(Debug)]
pub enum Phase<E> {
    /// Waiting for the opcode byte.
    Opcode,
    /// Ping: waiting for the answer to be sent.
    PingReply,
    /// Read: waiting for the offset.
    ReadOffset,
    /// Read: waiting for the page at `offset` to be read from the log.
    ReadPage { offset: u64 },
    /// Read: waiting for the page to be sent.
    ReadReply,
    /// Write: waiting for the byte count.
    WriteHeader,
    /// Write: waiting for the submission lock.
    WriteLock,
    /// Write, lock held: waiting for the next page from the client.
    WritePayload,
    /// Write, lock held: waiting for the log file's length.
    WriteLength,
    /// Write, lock held: waiting for the page to be written at `offset`.
    WriteAppend { offset: u64 },
    /// Write, lock held: waiting for the flush to be handed to the ring.
    WriteFlush,
    /// Write, lock held, flush submitted: waiting for the lock to be given
    /// up.
    WriteRelease,
    /// Write, lock given up: waiting for the flush to complete.
    WriteDurable,
    /// Write, lock held, command given up: waiting for the lock to be given
    /// up, to end with `outcome`.
    Abandon { outcome: Outcome<E> },
    /// The command is over.
    Finished { outcome: Outcome<E> },
}

/// A connection as the contracts see it.
pub struct ConnectionView<E> {
    /// The width of a write command's byte count.
    pub width: CountWidth,
    /// Which operation the connection waits for.
    pub phase: Phase<E>,
    /// The bytes to send or to write next, or those of the last page
    /// handled.
    pub buffer: Seq<u8>,
    /// The byte count that the write command announced; zero before that.
    pub announced: nat,
    /// The offsets of the pointers that this connection's appends yielded,
    /// in order.
    pub appended: Seq<u64>,
}

impl<E> ConnectionView<E> {
    /// A connection on which nothing has happened yet.
    pub open spec fn initial(width: CountWidth) -> ConnectionView<E> {
        ConnectionView {
            width,
            phase: Phase::Opcode,
            buffer: Seq::empty(),
            announced: 0,
            appended: Seq::empty(),
        }
    }

    /// The same connection in another phase.
    pub open spec fn at(self, phase: Phase<E>) -> ConnectionView<E> {
        ConnectionView { phase, ..self }
    }

    /// The same connection, over.
    pub open spec fn finished(self, outcome: Outcome<E>) -> ConnectionView<E> {
        self.at(Phase::Finished { outcome })
    }

    /// The same connection, about to give the lock up and end.
    pub open spec fn abandoned(self, outcome: Outcome<E>) -> ConnectionView<E> {
        self.at(Phase::Abandon { outcome })
    }

    /// The number of pages that the write command announced.
    pub open spec fn pages(self) -> nat {
        pages_for(self.announced)
    }

    /// The operation that the connection waits for.
    pub open spec fn pending(self) -> Action {
        match self.phase {
            Phase::Opcode => Action::Receive { len: 1 },
            Phase::PingReply => Action::Send,
            Phase::ReadOffset => Action::Receive { len: 8 },
            Phase::ReadPage { offset } => Action::ReadPage { offset },
            Phase::ReadReply => Action::Send,
            Phase::WriteHeader => Action::Receive { len: self.width.spec_bytes() as usize },
            Phase::WriteLock => Action::Lock,
            Phase::WritePayload => Action::Receive { len: PAGE_SIZE },
            Phase::WriteLength => Action::QueryLength,
            Phase::WriteAppend { offset } => Action::WritePage { offset },
            Phase::WriteFlush => Action::SubmitFlush,
            Phase::WriteRelease => Action::Unlock,
            Phase::WriteDurable => Action::AwaitFlush,
            Phase::Abandon { .. } => Action::Unlock,
            Phase::Finished { .. } => Action::Finish,
        }
    }

    /// Whether the connection holds the log's submission lock.
    pub open spec fn holds_lock(self) -> bool {
        match self.phase {
            Phase::WritePayload
            | Phase::WriteLength
            | Phase::WriteAppend { .. }
            | Phase::WriteFlush
            | Phase::WriteRelease
            | Phase::Abandon { .. } => true,
            _ => false,
        }
    }

    /// How the command ended, once it is over.
    pub open spec fn outcome(self) -> Option<Outcome<E>> {
        match self.phase {
            Phase::Finished { outcome } => Some(outcome),
            _ => None,
        }
    }

    /// Whether the result of the pending operation can be taken in: the
    /// pointer that an append yields must fit in 64 bits.
    pub open spec fn accepts(self, completion: Result<u64, E>) -> bool {
        match (self.phase, completion) {
            (Phase::WriteAppend { offset }, Ok(written)) => offset + written <= u64::MAX,
            _ => true,
        }
    }

    /// The connection after its pending operation ended with `completion`.
    /// For a read from the client, `data` is what the read filled; for the
    /// read of a page, it is the page buffer.
    pub open spec fn step(self, completion: Result<u64, E>, data: Seq<u8>) -> ConnectionView<E> {
        match self.phase {
            Phase::Opcode => match completion {
                Err(e) => self.finished(Outcome::Failed(e)),
                Ok(count) => if count == 0 {
                    self.finished(Outcome::Aborted)
                } else {
                    match Command::spec_decode(received(data, count as nat, 1)[0]) {
                        Command::Ping => ConnectionView {
                            phase: Phase::PingReply,
                            buffer: seq![ACK],
                            ..self
                        },
                        Command::Read => self.at(Phase::ReadOffset),
                        Command::Write => self.at(Phase::WriteHeader),
                        Command::Unknown => self.finished(Outcome::Completed),
                    }
                },
            },
            Phase::PingReply => match completion {
                Err(e) => self.finished(Outcome::Failed(e)),
                Ok(_) => self.finished(Outcome::Completed),
            },
            Phase::ReadOffset => match completion {
                Err(e) => self.finished(Outcome::Failed(e)),
                Ok(count) => if count == 0 {
                    self.finished(Outcome::Aborted)
                } else {
                    self.at(
                        Phase::ReadPage {
                            offset: le_value(received(data, count as nat, 8)) as u64,
                        },
                    )
                },
            },
            Phase::ReadPage { .. } => match completion {
                Err(e) => self.finished(Outcome::Failed(e)),
                Ok(count) => ConnectionView {
                    phase: Phase::ReadReply,
                    buffer: received(data, count as nat, PAGE_SIZE as nat),
                    ..self
                },
            },
            Phase::ReadReply => match completion {
                Err(e) => self.finished(Outcome::Failed(e)),
                Ok(_) => self.finished(Outcome::Completed),
            },
            Phase::WriteHeader => match completion {
                Err(e) => self.finished(Outcome::Failed(e)),
                Ok(count) => if count == 0 {
                    self.finished(Outcome::Aborted)
                } else {
                    let announced = le_value(
                        received(data, count as nat, self.width.spec_bytes()),
                    );
                    ConnectionView {
                        phase: if announced == 0 {
                            Phase::Finished { outcome: Outcome::Completed }
                        } else {
                            Phase::WriteLock
                        },
                        announced,
                        ..self
                    }
                },
            },
            Phase::WriteLock => match completion {
                Err(e) => self.finished(Outcome::Failed(e)),
                Ok(_) => self.at(Phase::WritePayload),
            },
            Phase::WritePayload => match completion {
                Err(e) => self.abandoned(Outcome::Failed(e)),
                Ok(count) => if count == 0 {
                    self.abandoned(Outcome::Aborted)
                } else {
                    ConnectionView {
                        phase: Phase::WriteLength,
                        buffer: received(data, count as nat, PAGE_SIZE as nat),
                        ..self
                    }
                },
            },
            Phase::WriteLength => match completion {
                Err(e) => self.abandoned(Outcome::Failed(e)),
                Ok(length) => self.at(Phase::WriteAppend { offset: length }),
            },
            Phase::WriteAppend { offset } => match completion {
                Err(e) => self.abandoned(Outcome::Failed(e)),
                Ok(written) => {
                    let appended = self.appended.push((offset + written) as u64);
                    ConnectionView {
                        phase: if appended.len() == self.pages() {
                            Phase::WriteFlush
                        } else {
                            Phase::WritePayload
                        },
                        appended,
                        ..self
                    }
                },
            },
            Phase::WriteFlush => match completion {
                Err(e) => self.abandoned(Outcome::Failed(e)),
                Ok(_) => self.at(Phase::WriteRelease),
            },
            Phase::WriteRelease => self.at(Phase::WriteDurable),
            Phase::WriteDurable => match completion {
                Err(e) => self.finished(Outcome::Failed(e)),
                Ok(_) => self.finished(Outcome::Completed),
            },
            Phase::Abandon { outcome } => self.finished(outcome),
            Phase::Finished { .. } => self,
        }
    }

    /// What holds of every connection that `step` can reach.
    pub open spec fn wf(self) -> bool {
        &&& self.announced <= u64::MAX
        &&& self.appended.len() <= self.pages()
        &&& match self.phase {
            Phase::Opcode | Phase::ReadOffset | Phase::ReadPage { .. } | Phase::WriteHeader => {
                self.announced == 0
            },
            Phase::PingReply => self.announced == 0 && self.buffer == seq![ACK],
            Phase::ReadReply => self.announced == 0 && self.buffer.len() == PAGE_SIZE,
            Phase::WriteLock => self.appended.len() == 0 && self.pages() > 0,
            Phase::WritePayload => self.appended.len() < self.pages(),
            Phase::WriteLength | Phase::WriteAppend { .. } => {
                self.appended.len() < self.pages() && self.buffer.len() == PAGE_SIZE
            },
            Phase::WriteFlush | Phase::WriteRelease | Phase::WriteDurable => {
                self.appended.len() == self.pages() && self.pages() > 0
            },
            Phase::Abandon { outcome } => !(outcome is Completed),
            Phase::Finished { outcome } => outcome is Completed ==> self.appended.len()
                == self.pages(),
        }
    }
}

/// What happened on a connection: how each operation ended, and the buffer
/// that it filled, the first one first.
pub type Events<E> = Seq<(Result<u64, E>, Seq<u8>)>;

impl<E> ConnectionView<E> {
    /// The connection after `events`.
    pub open spec fn run(self, events: Events<E>) -> ConnectionView<E>
        decreases events.len(),
    {
        if events.len() == 0 {
            self
        } else {
            self.run(events.drop_last()).step(events.last().0, events.last().1)
        }
    }

    /// A step leaves a well-formed connection well-formed.
    pub proof fn lemma_step_is_well_formed(self, completion: Result<u64, E>, data: Seq<u8>)
        requires
            self.wf(),
        ensures
            self.step(completion, data).wf(),
    {
        if self.phase is WriteHeader {
            if let Ok(count) = completion {
                lemma_le_value_bound(received(data, count as nat, self.width.spec_bytes()));
            }
        }
    }

    /// Every connection that a run reaches from a well-formed one is
    /// well-formed.
    pub proof fn lemma_run_is_well_formed(self, events: Events<E>)
        requires
            self.wf(),
        ensures
            self.run(events).wf(),
        decreases events.len(),
    {
        if events.len() > 0 {
            self.lemma_run_is_well_formed(events.drop_last());
            self.run(events.drop_last()).lemma_step_is_well_formed(
                events.last().0,
                events.last().1,
            );
        }
    }

    /// The lock brackets every submission to the log. An append, a flush and
    /// the length that an append goes by are asked for only while the lock
    /// is held. The lock is held from the step in which it was granted to the
    /// step in which it is given up, and it is given up before the flush is
    /// waited for and before the command ends.
    pub proof fn lemma_lock_discipline(self, completion: Result<u64, E>, data: Seq<u8>)
        ensures
            self.pending().submits_to_log() ==> self.holds_lock() && self.pending().linked(),
            self.pending() is QueryLength ==> self.holds_lock(),
            self.pending() is Lock ==> !self.holds_lock(),
            self.pending() is Unlock ==> self.holds_lock(),
            self.pending() is AwaitFlush || self.pending() is Finish ==> !self.holds_lock(),
            !self.holds_lock() && self.step(completion, data).holds_lock() ==> self.pending()
                is Lock && completion is Ok,
            self.holds_lock() && !self.step(completion, data).holds_lock() ==> self.pending()
                is Unlock,
    {
    }

    /// The flush follows the appends, and the report follows the flush. The
    /// flush is handed to the ring only when every announced page has been
    /// appended; it is waited for only after it was handed over and the lock
    /// given up; and a write that announced any bytes is reported complete
    /// only in the step in which its flush has completed.
    pub proof fn lemma_flush_discipline(self, completion: Result<u64, E>, data: Seq<u8>)
        requires
            self.wf(),
        ensures
            self.pending() is SubmitFlush ==> self.appended.len() == self.pages()
                && self.pages() > 0,
            self.step(completion, data).phase is WriteRelease ==> self.pending() is SubmitFlush
                && completion is Ok,
            self.step(completion, data).phase is WriteDurable ==> self.phase is WriteRelease,
            self.outcome() is None && self.step(completion, data).outcome() == Some(
                Outcome::<E>::Completed,
            ) && self.step(completion, data).announced > 0 ==> self.pending() is AwaitFlush
                && completion is Ok,
    {
    }

    /// A command that is over stays over, with the outcome it had.
    pub proof fn lemma_finished_is_final(self, events: Events<E>)
        requires
            self.phase is Finished,
        ensures
            self.run(events) == self,
        decreases events.len(),
    {
        if events.len() > 0 {
            self.lemma_finished_is_final(events.drop_last());
        }
    }

    /// A ping leaves the log alone and is answered with one zero byte.
    /// Whatever happens on a connection whose opcode byte was that of a
    /// ping, the connection asks only to receive, to send and to finish, and
    /// appends nothing. What it sends is the one zero byte, and once that
    /// was sent the command is complete.
    pub proof fn lemma_ping(width: CountWidth, events: Events<E>)
        requires
            events.len() >= 1,
            events[0].0 matches Ok(count) && count > 0,
            events[0].1.len() >= 1,
            events[0].1[0] == OP_PING,
        ensures
            ({
                let end = Self::initial(width).run(events);
                &&& end.pending().leaves_log_alone()
                &&& end.appended.len() == 0
                &&& end.pending() is Send ==> end.buffer == seq![ACK]
                &&& events.len() == 1 ==> end.pending() is Send
                &&& events.len() >= 2 ==> end.pending() is Finish
                &&& events.len() >= 2 && events[1].0 is Ok ==> end.outcome() == Some(
                    Outcome::<E>::Completed,
                )
            }),
        decreases events.len(),
    {
        let start = Self::initial(width);
        if events.len() == 1 {
            assert(start.run(events.drop_last()) == start);
        } else {
            Self::lemma_ping(width, events.drop_last());
        }
    }

    /// An opcode that names no command does nothing. The command is complete
    /// at once: nothing is asked of the log, nothing is sent and nothing is
    /// appended, whatever is reported to the connection afterwards.
    pub proof fn lemma_unknown_opcode(width: CountWidth, events: Events<E>)
        requires
            events.len() >= 1,
            events[0].0 matches Ok(count) && count > 0,
            events[0].1.len() >= 1,
            events[0].1[0] > OP_WRITE,
        ensures
            ({
                let end = Self::initial(width).run(events);
                &&& end.pending() is Finish
                &&& end.outcome() == Some(Outcome::<E>::Completed)
                &&& end.appended.len() == 0
            }),
        decreases events.len(),
    {
        let start = Self::initial(width);
        if events.len() == 1 {
            assert(start.run(events.drop_last()) == start);
        } else {
            Self::lemma_unknown_opcode(width, events.drop_last());
        }
    }
}

/// What a connection holds besides its phase.
struct Core {
    width: CountWidth,
    buffer: Vec<u8>,
    announced: u64,
    pages: u64,
    appended: Vec<DiskPtr>,
}

impl Core {
    spec fn view_at<E>(self, phase: Phase<E>) -> ConnectionView<E> {
        ConnectionView {
            width: self.width,
            phase,
            buffer: self.buffer@,
            announced: self.announced as nat,
            appended: offsets(self.appended@),
        }
    }

    spec fn counted(self) -> bool {
        self.pages == pages_for(self.announced as nat)
    }
}

/// The protocol state of one connection.
pub struct Connection<E> {
    phase: Phase<E>,
    core: Core,
}

impl<E> View for Connection<E> {
    type V = ConnectionView<E>;

    closed spec fn view(&self) -> ConnectionView<E> {
        self.core.view_at(self.phase)
    }
}

impl<E> Connection<E> {
    #[verifier::type_invariant]
    spec fn inv(self) -> bool {
        &&& self@.wf()
        &&& self.core.counted()
    }

    fn enter(core: Core, phase: Phase<E>) -> (next: Connection<E>)
        requires
            core.view_at(phase).wf(),
            core.counted(),
        ensures
            next@ == core.view_at(phase),
    {
        Connection { phase, core }
    }

    /// A connection on which nothing has happened yet. The byte count of a
    /// write command takes `width` bytes.
    pub fn new(width: CountWidth) -> (connection: Connection<E>)
        ensures
            connection@ == ConnectionView::<E>::initial(width),
            connection@.wf(),
    {
        let core = Core {
            width,
            buffer: Vec::new(),
            announced: 0,
            pages: 0,
            appended: Vec::new(),
        };
        assert(offsets(core.appended@) =~= Seq::<u64>::empty());
        Self::enter(core, Phase::Opcode)
    }

    /// The operation to perform next.
    pub fn pending(&self) -> (action: Action)
        ensures
            action == self@.pending(),
    {
        match &self.phase {
            Phase::Opcode => Action::Receive { len: 1 },
            Phase::PingReply => Action::Send,
            Phase::ReadOffset => Action::Receive { len: 8 },
            Phase::ReadPage { offset } => DiskPtr::load(*offset).read(),
            Phase::ReadReply => Action::Send,
            Phase::WriteHeader => Action::Receive { len: self.core.width.bytes() },
            Phase::WriteLock => Action::Lock,
            Phase::WritePayload => Action::Receive { len: PAGE_SIZE },
            Phase::WriteLength => Action::QueryLength,
            Phase::WriteAppend { offset } => Action::WritePage { offset: *offset },
            Phase::WriteFlush => Action::SubmitFlush,
            Phase::WriteRelease => Action::Unlock,
            Phase::WriteDurable => Action::AwaitFlush,
            Phase::Abandon { .. } => Action::Unlock,
            Phase::Finished { .. } => Action::Finish,
        }
    }

    /// Where the connection stands.
    pub fn phase(&self) -> (phase: &Phase<E>)
        ensures
            *phase == self@.phase,
    {
        &self.phase
    }

    /// Whether the connection holds the log's submission lock.
    pub fn holds_lock(&self) -> (held: bool)
        ensures
            held == self@.holds_lock(),
    {
        match &self.phase {
            Phase::WritePayload
            | Phase::WriteLength
            | Phase::WriteAppend { .. }
            | Phase::WriteFlush
            | Phase::WriteRelease
            | Phase::Abandon { .. } => true,
            _ => false,
        }
    }

    /// The bytes to send or to write next: one zero byte while a ping is
    /// answered, one page while a page is sent or appended.
    pub fn buffer(&self) -> (buffer: &Vec<u8>)
        ensures
            buffer@ == self@.buffer,
            self@.wf(),
    {
        proof {
            use_type_invariant(self);
        }
        &self.core.buffer
    }

    /// The pointers that this connection's appends yielded, in order.
    pub fn appended(&self) -> (ptrs: &Vec<DiskPtr>)
        ensures
            offsets(ptrs@) == self@.appended,
    {
        &self.core.appended
    }

    /// How the command ended, once it is over.
    pub fn outcome(&self) -> (outcome: Option<&Outcome<E>>)
        ensures
            match outcome {
                Some(o) => self@.outcome() == Some(*o),
                None => self@.outcome() is None,
            },
    {
        match &self.phase {
            Phase::Finished { outcome } => Some(outcome),
            _ => None,
        }
    }

    /// Ends the connection and hands out how the command ended, if it is
    /// over.
    pub fn into_outcome(self) -> (outcome: Option<Outcome<E>>)
        ensures
            outcome == self@.outcome(),
    {
        match self.phase {
            Phase::Finished { outcome } => Some(outcome),
            _ => None,
        }
    }

    /// Whether `step` can take `completion` in. It cannot where the pointer
    /// that an append yields would not fit in 64 bits.
    pub fn accepts(&self, completion: &Result<u64, E>) -> (ok: bool)
        ensures
            ok == self@.accepts(*completion),
    {
        match (&self.phase, completion) {
            (Phase::WriteAppend { offset }, Ok(written)) => *written <= u64::MAX - *offset,
            _ => true,
        }
    }

    /// Takes in how the pending operation ended, and moves on. `completion`
    /// is the number that the operation gave (the bytes read, sent or
    /// written, or the file's length; zero where it gives none) or its
    /// error. `data` is the buffer that a read filled, and is not looked at
    /// otherwise.
    pub fn step(self, completion: Result<u64, E>, data: &[u8]) -> (next: Connection<E>)
        requires
            self@.accepts(completion),
        ensures
            next@ == self@.step(completion, data@),
            next@.wf(),
    {
        proof {
            use_type_invariant(&self);
        }
        let Connection { phase, core } = self;
        let mut core = core;
        let next = match phase {
            Phase::Opcode => match completion {
                Err(e) => Self::enter(core, Phase::Finished { outcome: Outcome::Failed(e) }),
                Ok(count) => if count == 0 {
                    Self::enter(core, Phase::Finished { outcome: Outcome::Aborted })
                } else {
                    let opcode = frame(data, count, 1);
                    match Command::decode(opcode[0]) {
                        Command::Ping => {
                            let mut answer: Vec<u8> = Vec::new();
                            answer.push(ACK);
                            core.buffer = answer;
                            Self::enter(core, Phase::PingReply)
                        },
                        Command::Read => Self::enter(core, Phase::ReadOffset),
                        Command::Write => Self::enter(core, Phase::WriteHeader),
                        Command::Unknown => Self::enter(
                            core,
                            Phase::Finished { outcome: Outcome::Completed },
                        ),
                    }
                },
            },
            Phase::PingReply | Phase::ReadReply | Phase::WriteDurable => match completion {
                Err(e) => Self::enter(core, Phase::Finished { outcome: Outcome::Failed(e) }),
                Ok(_) => Self::enter(core, Phase::Finished { outcome: Outcome::Completed }),
            },
            Phase::ReadOffset => match completion {
                Err(e) => Self::enter(core, Phase::Finished { outcome: Outcome::Failed(e) }),
                Ok(count) => if count == 0 {
                    Self::enter(core, Phase::Finished { outcome: Outcome::Aborted })
                } else {
                    let offset = decode_offset(data, count);
                    Self::enter(core, Phase::ReadPage { offset })
                },
            },
            Phase::ReadPage { .. } => match completion {
                Err(e) => Self::enter(core, Phase::Finished { outcome: Outcome::Failed(e) }),
                Ok(count) => {
                    core.buffer = frame(data, count, PAGE_SIZE);
                    Self::enter(core, Phase::ReadReply)
                },
            },
            Phase::WriteHeader => match completion {
                Err(e) => Self::enter(core, Phase::Finished { outcome: Outcome::Failed(e) }),
                Ok(count) => if count == 0 {
                    Self::enter(core, Phase::Finished { outcome: Outcome::Aborted })
                } else {
                    core.announced = decode_byte_count(data, count, core.width);
                    core.pages = page_count(core.announced);
                    if core.pages == 0 {
                        Self::enter(core, Phase::Finished { outcome: Outcome::Completed })
                    } else {
                        Self::enter(core, Phase::WriteLock)
                    }
                },
            },
            Phase::WriteLock => match completion {
                Err(e) => Self::enter(core, Phase::Finished { outcome: Outcome::Failed(e) }),
                Ok(_) => Self::enter(core, Phase::WritePayload),
            },
            Phase::WritePayload => match completion {
                Err(e) => Self::enter(core, Phase::Abandon { outcome: Outcome::Failed(e) }),
                Ok(count) => if count == 0 {
                    Self::enter(core, Phase::Abandon { outcome: Outcome::Aborted })
                } else {
                    core.buffer = frame(data, count, PAGE_SIZE);
                    Self::enter(core, Phase::WriteLength)
                },
            },
            Phase::WriteLength => match completion {
                Err(e) => Self::enter(core, Phase::Abandon { outcome: Outcome::Failed(e) }),
                Ok(length) => Self::enter(core, Phase::WriteAppend { offset: length }),
            },
            Phase::WriteAppend { offset } => match completion {
                Err(e) => Self::enter(core, Phase::Abandon { outcome: Outcome::Failed(e) }),
                Ok(written) => {
                    let ptr = DiskPtr::new(offset, written);
                    let ghost before = core.appended@;
                    core.appended.push(ptr);
                    assert(offsets(core.appended@) =~= offsets(before).push(ptr@));
                    if core.appended.len() as u64 == core.pages {
                        Self::enter(core, Phase::WriteFlush)
                    } else {
                        Self::enter(core, Phase::WritePayload)
                    }
                },
            },
            Phase::WriteFlush => match completion {
                Err(e) => Self::enter(core, Phase::Abandon { outcome: Outcome::Failed(e) }),
                Ok(_) => Self::enter(core, Phase::WriteRelease),
            },
            Phase::WriteRelease => Self::enter(core, Phase::WriteDurable),
            Phase::Abandon { outcome } => Self::enter(core, Phase::Finished { outcome }),
            Phase::Finished { outcome } => Self::enter(core, Phase::Finished { outcome }),
        };
        proof {
            use_type_invariant(&next);
        }
        next
    }
}

} // verus!
