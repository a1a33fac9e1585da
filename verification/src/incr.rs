//! Incremental transfers: how a selection owner hands a large payload to a
//! requester in chunks, and how the requester puts the chunks together.
//!
//! The owner first announces the transfer. Each time the requester deletes
//! the property it has read, the owner writes the next chunk; a chunk of
//! length zero ends the transfer. Either side gives up when its wait runs
//! out, which ends that transfer and nothing else.

use vstd::prelude::*;
use crate::content::{append_bytes, copy_bytes};
use crate::error::ClipboardError;

verus! {

/// Where an owner-side transfer stands.
#[derive(Debug, Clone, Copy, PartialEq, Eq, Structural)]
pub enum SendPhase {
    /// Nothing has been sent.
    Idle,
    /// The transfer has been announced; no chunk has been written yet.
    Serving,
    /// A chunk has been written and the requester has not deleted it yet.
    AwaitingPropertyDelete,
    /// Everything has been sent, the terminating chunk included.
    Done,
    /// The requester did not answer in time; the transfer was abandoned.
    TimedOut,
}

/// What the owner has to do next on the requester's property.
#[derive(Debug)]
pub enum SendAction {
    /// Nothing: the event does not concern this transfer any more.
    Ignore,
    /// Write the whole payload into the property and notify the requester.
    WriteAll(Vec<u8>),
    /// Announce an incremental transfer of `total` bytes and notify the requester.
    Announce { total: usize },
    /// Write this chunk into the property. An empty chunk ends the transfer.
    WriteChunk(Vec<u8>),
    /// Stop watching the requester's property.
    Abandon,
}

/// The instant `timeout` after `now`, or the last instant there is.
pub open spec fn deadline_after(now: u64, timeout: u64) -> u64 {
    if now + timeout > u64::MAX {
        u64::MAX
    } else {
        (now + timeout) as u64
    }
}

/// The instant `timeout` after `now`, or the last instant there is.
pub fn deadline(now: u64, timeout: u64) -> (at: u64)
    ensures
        at == deadline_after(now, timeout),
{
    if timeout > u64::MAX - now {
        u64::MAX
    } else {
        now + timeout
    }
}

/// The mathematical value of a sender.
pub struct SenderModel {
    pub data: Seq<u8>,
    pub offset: nat,
    pub phase: SendPhase,
    pub deadline: u64,
    pub timeout: u64,
}

/// The chunk that follows the first `offset` bytes of `data` when at most
/// `limit` bytes may be written at once. A limit of zero counts as one, so
/// that a chunk is empty only when nothing is left.
pub open spec fn next_chunk(data: Seq<u8>, offset: nat, limit: nat) -> Seq<u8> {
    let most: nat = if limit == 0 {
        1
    } else {
        limit
    };
    let end: nat = if offset + most < data.len() {
        offset + most
    } else {
        data.len()
    };
    data.subrange(offset as int, end as int)
}

impl SenderModel {
    /// A sender of `data` that has not begun.
    pub open spec fn idle(data: Seq<u8>) -> SenderModel {
        SenderModel { data, offset: 0, phase: SendPhase::Idle, deadline: 0, timeout: 0 }
    }

    /// Whether the transfer is waiting for the requester.
    pub open spec fn active(self) -> bool {
        self.phase == SendPhase::Serving || self.phase == SendPhase::AwaitingPropertyDelete
    }

    /// Whether the transfer is waiting and its deadline has passed at `now`.
    pub open spec fn expired(self, now: u64) -> bool {
        self.active() && now >= self.deadline
    }

    /// The sender after the transfer was begun at `now`: a payload of at
    /// most `threshold` bytes is sent whole, a larger one is announced and
    /// the requester is given `timeout` for each of its answers.
    pub open spec fn after_begin(self, threshold: nat, now: u64, timeout: u64) -> SenderModel {
        if self.phase != SendPhase::Idle {
            self
        } else if self.data.len() <= threshold {
            SenderModel { offset: self.data.len(), phase: SendPhase::Done, timeout, ..self }
        } else {
            SenderModel {
                offset: 0,
                phase: SendPhase::Serving,
                deadline: deadline_after(now, timeout),
                timeout,
                ..self
            }
        }
    }

    /// The sender after the requester deleted the property at `now`, given
    /// the limit on the next chunk.
    pub open spec fn after_delete(self, limit: nat, now: u64) -> SenderModel {
        if self.expired(now) {
            SenderModel { phase: SendPhase::TimedOut, ..self }
        } else if self.active() {
            let chunk = next_chunk(self.data, self.offset, limit);
            if chunk.len() == 0 {
                SenderModel { phase: SendPhase::Done, ..self }
            } else {
                SenderModel {
                    offset: self.offset + chunk.len(),
                    phase: SendPhase::AwaitingPropertyDelete,
                    deadline: deadline_after(now, self.timeout),
                    ..self
                }
            }
        } else {
            self
        }
    }

    /// The sender after time was seen to have reached `now`.
    pub open spec fn after_tick(self, now: u64) -> SenderModel {
        if self.expired(now) {
            SenderModel { phase: SendPhase::TimedOut, ..self }
        } else {
            self
        }
    }
}

/// The owner's side of one transfer.
#[derive(Debug)]
pub struct IncrSender {
    data: Vec<u8>,
    offset: usize,
    phase: SendPhase,
    deadline: u64,
    timeout: u64,
}

impl View for IncrSender {
    type V = SenderModel;

    closed spec fn view(&self) -> SenderModel {
        SenderModel {
            data: self.data@,
            offset: self.offset as nat,
            phase: self.phase,
            deadline: self.deadline,
            timeout: self.timeout,
        }
    }
}

impl IncrSender {
    #[verifier::type_invariant]
    spec fn within(self) -> bool {
        self.offset <= self.data@.len()
    }

    /// A transfer of `data` that has not begun.
    pub fn new(data: Vec<u8>) -> (out: IncrSender)
        ensures
            out@ == SenderModel::idle(data@),
    {
        IncrSender { data, offset: 0, phase: SendPhase::Idle, deadline: 0, timeout: 0 }
    }

    /// Where the transfer stands.
    pub fn phase(&self) -> (phase: SendPhase)
        ensures
            phase == self@.phase,
            self@.offset <= self@.data.len(),
    {
        proof {
            use_type_invariant(self);
        }
        self.phase
    }

    /// The number of bytes written so far.
    pub fn offset(&self) -> (offset: usize)
        ensures
            offset == self@.offset,
            self@.offset <= self@.data.len(),
    {
        proof {
            use_type_invariant(self);
        }
        self.offset
    }

    fn is_active(&self) -> (active: bool)
        ensures
            active == self@.active(),
    {
        match self.phase {
            SendPhase::Serving | SendPhase::AwaitingPropertyDelete => true,
            _ => false,
        }
    }

    /// How long the owner may still wait for the requester: nothing when
    /// the transfer does not wait or its deadline has passed.
    pub fn time_left(&self, now: u64) -> (left: u64)
        ensures
            left == if self@.active() && now < self@.deadline {
                (self@.deadline - now) as u64
            } else {
                0
            },
    {
        if self.is_active() && now < self.deadline {
            self.deadline - now
        } else {
            0
        }
    }

    /// Begins the transfer at `now`. A payload of at most `threshold` bytes
    /// goes out in one piece and the transfer is done; a larger one is
    /// announced and then served chunk by chunk, and the requester gets
    /// `timeout` for each of its answers. A transfer that has begun is not
    /// begun again.
    pub fn begin(&mut self, threshold: usize, now: u64, timeout: u64) -> (action: SendAction)
        ensures
            final(self)@ == old(self)@.after_begin(threshold as nat, now, timeout),
            old(self)@.phase != SendPhase::Idle ==> action is Ignore,
            old(self)@.phase == SendPhase::Idle && old(self)@.data.len() <= threshold ==> {
                &&& action matches SendAction::WriteAll(bytes)
                &&& bytes@ == old(self)@.data
            },
            old(self)@.phase == SendPhase::Idle && old(self)@.data.len() > threshold ==> action
                == (SendAction::Announce { total: old(self)@.data.len() as usize }),
    {
        proof {
            use_type_invariant(&*self);
        }
        match self.phase {
            SendPhase::Idle => {
                self.timeout = timeout;
                if self.data.len() <= threshold {
                    self.offset = self.data.len();
                    self.phase = SendPhase::Done;
                    SendAction::WriteAll(copy_bytes(&self.data))
                } else {
                    self.offset = 0;
                    self.phase = SendPhase::Serving;
                    self.deadline = deadline(now, timeout);
                    SendAction::Announce { total: self.data.len() }
                }
            },
            _ => SendAction::Ignore,
        }
    }

    /// The requester deleted the property at `now`: the next chunk of at
    /// most `limit` bytes is due. When nothing is left the chunk is empty
    /// and the transfer is done. A deletion that comes after the deadline
    /// ends the transfer as timed out; outside a running transfer the event
    /// is ignored.
    pub fn on_property_deleted(&mut self, limit: usize, now: u64) -> (action: SendAction)
        ensures
            final(self)@ == old(self)@.after_delete(limit as nat, now),
            !old(self)@.active() ==> action is Ignore,
            old(self)@.expired(now) ==> action is Abandon,
            old(self)@.active() && !old(self)@.expired(now) ==> {
                &&& action matches SendAction::WriteChunk(chunk)
                &&& chunk@ == next_chunk(old(self)@.data, old(self)@.offset, limit as nat)
            },
    {
        proof {
            use_type_invariant(&*self);
        }
        if !self.is_active() {
            return SendAction::Ignore;
        }
        if now >= self.deadline {
            self.phase = SendPhase::TimedOut;
            return SendAction::Abandon;
        }
        let most: usize = if limit == 0 {
            1
        } else {
            limit
        };
        let left: usize = self.data.len() - self.offset;
        let size: usize = if most < left {
            most
        } else {
            left
        };
        let end: usize = self.offset + size;
        let mut chunk: Vec<u8> = Vec::new();
        let mut i: usize = self.offset;
        while i < end
            invariant
                self.offset <= i <= end <= self.data@.len(),
                chunk@ == self.data@.subrange(self.offset as int, i as int),
            decreases end - i,
        {
            chunk.push(self.data[i]);
            i += 1;
            assert(chunk@ =~= self.data@.subrange(self.offset as int, i as int));
        }
        if size == 0 {
            self.phase = SendPhase::Done;
        } else {
            self.offset = end;
            self.phase = SendPhase::AwaitingPropertyDelete;
            self.deadline = deadline(now, self.timeout);
        }
        SendAction::WriteChunk(chunk)
    }

    /// No event arrived; time has reached `now`. A running transfer whose
    /// deadline has passed is abandoned; this is not an error of the owner.
    pub fn on_tick(&mut self, now: u64) -> (action: SendAction)
        ensures
            final(self)@ == old(self)@.after_tick(now),
            action == if old(self)@.expired(now) {
                SendAction::Abandon
            } else {
                SendAction::Ignore
            },
    {
        proof {
            use_type_invariant(&*self);
        }
        if self.is_active() && now >= self.deadline {
            self.phase = SendPhase::TimedOut;
            SendAction::Abandon
        } else {
            SendAction::Ignore
        }
    }
}

/// Where a requester-side collection stands.
#[derive(Debug, Clone, Copy, PartialEq, Eq, Structural)]
pub enum ReceivePhase {
    /// More chunks are expected.
    Collecting,
    /// The terminating chunk has arrived.
    Complete,
    /// The owner did not write the next chunk in time.
    TimedOut,
}

/// The mathematical value of a receiver.
pub struct ReceiverModel {
    pub buffer: Seq<u8>,
    pub phase: ReceivePhase,
}

impl ReceiverModel {
    /// The receiver after a chunk arrived: while collecting, a chunk with
    /// content is added at the end and an empty chunk completes the
    /// collection; afterwards chunks change nothing.
    pub open spec fn after_chunk(self, chunk: Seq<u8>) -> ReceiverModel {
        if self.phase != ReceivePhase::Collecting {
            self
        } else if chunk.len() == 0 {
            ReceiverModel { buffer: self.buffer, phase: ReceivePhase::Complete }
        } else {
            ReceiverModel { buffer: self.buffer + chunk, phase: ReceivePhase::Collecting }
        }
    }
}

/// The requester's side of one transfer.
#[derive(Debug)]
pub struct IncrReceiver {
    buffer: Vec<u8>,
    phase: ReceivePhase,
}

impl View for IncrReceiver {
    type V = ReceiverModel;

    closed spec fn view(&self) -> ReceiverModel {
        ReceiverModel { buffer: self.buffer@, phase: self.phase }
    }
}

impl IncrReceiver {
    /// A collection that has received nothing yet.
    pub fn new() -> (out: IncrReceiver)
        ensures
            out@ == (ReceiverModel { buffer: Seq::empty(), phase: ReceivePhase::Collecting }),
    {
        IncrReceiver { buffer: Vec::new(), phase: ReceivePhase::Collecting }
    }

    /// Where the collection stands.
    pub fn phase(&self) -> (phase: ReceivePhase)
        ensures
            phase == self@.phase,
    {
        self.phase
    }

    /// The owner wrote `chunk` into the property.
    pub fn on_chunk(&mut self, chunk: &[u8])
        ensures
            final(self)@ == old(self)@.after_chunk(chunk@),
    {
        match self.phase {
            ReceivePhase::Collecting => {
                if chunk.len() == 0 {
                    self.phase = ReceivePhase::Complete;
                } else {
                    append_bytes(&mut self.buffer, chunk);
                }
            },
            _ => {},
        }
    }

    /// The owner did not write the next chunk in time.
    pub fn on_timeout(&mut self)
        ensures
            final(self)@.buffer == old(self)@.buffer,
            final(self)@.phase == if old(self)@.phase == ReceivePhase::Collecting {
                ReceivePhase::TimedOut
            } else {
                old(self)@.phase
            },
    {
        match self.phase {
            ReceivePhase::Collecting => {
                self.phase = ReceivePhase::TimedOut;
            },
            _ => {},
        }
    }

    /// The collected bytes. A collection that is not complete yields `Timeout`.
    pub fn finish(self) -> (out: Result<Vec<u8>, ClipboardError>)
        ensures
            self@.phase == ReceivePhase::Complete ==> out is Ok && out.unwrap()@ == self@.buffer,
            self@.phase != ReceivePhase::Complete ==> out == Err::<Vec<u8>, ClipboardError>(
                ClipboardError::Timeout,
            ),
    {
        match self.phase {
            ReceivePhase::Complete => Ok(self.buffer),
            _ => Err(ClipboardError::Timeout),
        }
    }
}

/// The chunks that a sender standing at `offset` writes as the requester
/// deletes the property again and again, the limit of each chunk taken in
/// turn from `limits`. The sender stops after an empty chunk.
pub open spec fn chunks_sent(data: Seq<u8>, offset: nat, limits: Seq<nat>) -> Seq<Seq<u8>>
    decreases limits.len(),
{
    if limits.len() == 0 {
        Seq::empty()
    } else {
        let chunk = next_chunk(data, offset, limits[0]);
        if chunk.len() == 0 {
            seq![chunk]
        } else {
            seq![chunk] + chunks_sent(data, offset + chunk.len(), limits.skip(1))
        }
    }
}

/// The receiver after the chunks of `chunks` arrived in order.
pub open spec fn after_chunks(start: ReceiverModel, chunks: Seq<Seq<u8>>) -> ReceiverModel
    decreases chunks.len(),
{
    if chunks.len() == 0 {
        start
    } else {
        after_chunks(start.after_chunk(chunks[0]), chunks.skip(1))
    }
}

/// Chunking loses nothing, wherever the chunk boundaries fall: a receiver
/// that holds the first `offset` bytes of `data` and takes in what the sender
/// writes from there on holds a prefix of `data` at every moment, holds
/// exactly `data` once it is complete, and is complete as soon as the
/// requester has deleted the property more often than bytes were left.
pub proof fn lemma_chunks_reassemble(data: Seq<u8>, offset: nat, limits: Seq<nat>)
    requires
        offset <= data.len(),
    ensures
        ({
            let start = ReceiverModel {
                buffer: data.take(offset as int),
                phase: ReceivePhase::Collecting,
            };
            let end = after_chunks(start, chunks_sent(data, offset, limits));
            &&& end.phase != ReceivePhase::TimedOut
            &&& end.buffer.is_prefix_of(data)
            &&& end.phase == ReceivePhase::Complete ==> end.buffer == data
            &&& limits.len() > data.len() - offset ==> end.phase == ReceivePhase::Complete
        }),
    decreases limits.len(),
{
    let start = ReceiverModel { buffer: data.take(offset as int), phase: ReceivePhase::Collecting };
    let sent = chunks_sent(data, offset, limits);
    if limits.len() == 0 {
        assert(after_chunks(start, sent) == start);
    } else {
        let chunk = next_chunk(data, offset, limits[0]);
        if chunk.len() == 0 {
            assert(sent =~= seq![chunk]);
            assert(sent.skip(1) =~= Seq::<Seq<u8>>::empty());
            let done = start.after_chunk(chunk);
            assert(after_chunks(done, sent.skip(1)) == done);
            assert(offset == data.len());
            assert(data.take(offset as int) =~= data);
        } else {
            let rest = chunks_sent(data, offset + chunk.len(), limits.skip(1));
            assert(sent =~= seq![chunk] + rest);
            assert(sent[0] == chunk);
            assert(sent.skip(1) =~= rest);
            assert(data.take(offset as int) + chunk =~= data.take((offset + chunk.len()) as int));
            lemma_chunks_reassemble(data, offset + chunk.len(), limits.skip(1));
        }
    }
}

} // verus!
