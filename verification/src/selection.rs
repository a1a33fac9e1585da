//! The two sides of an X11 selection transfer as state machines.
//!
//! The owner answers a request from what it has published; the requester
//! waits for the answer, for the property and, in an incremental transfer,
//! for each chunk. Every wait has a deadline. The caller performs the
//! requests and hands each event in, together with the present time.

use vstd::prelude::*;
use crate::atoms::{atom_list, atom_name, atoms_in, lists_atom, name_of, Target, TargetTag};
use crate::content::{
    append_bytes,
    first_of,
    texts,
    ClipboardPayload,
    ContentFormat,
    PayloadModel,
};
use crate::context::{ClipboardContext, ContextModel, Owner};
use crate::error::ClipboardError;
use crate::incr::{
    deadline,
    deadline_after,
    IncrSender,
    ReceivePhase,
    ReceiverModel,
    SendAction,
    SenderModel,
};

verus! {

/// What the owner does with a request.
#[derive(Debug)]
pub enum ServeAction {
    /// Answer without a property: nothing can be delivered.
    Refuse,
    /// Answer with the names of the targets that can be delivered.
    Targets(Vec<String>),
    /// Deliver through `sender`, whose first step is `first`.
    Transfer { sender: IncrSender, first: SendAction },
}

/// The target names that an owner of `contents` offers: `TARGETS` itself,
/// then the name of each payload's format, most preferred first.
pub open spec fn offered_names(contents: Seq<PayloadModel>) -> Seq<Seq<char>> {
    seq!["TARGETS"@] + contents.map_values(|p: PayloadModel| name_of(p.format))
}

/// Answers a request for `target` that arrived at `now`. Only the owner
/// delivers: a process that has lost the selection refuses, so that nothing
/// stale is ever served. A payload of at most `threshold` bytes goes out in
/// one piece, a larger one incrementally, with `timeout` for each answer of
/// the requester.
pub fn serve(
    context: &ClipboardContext,
    target: &Target,
    threshold: usize,
    now: u64,
    timeout: u64,
) -> (action: ServeAction)
    ensures
        context@.owner != Owner::This ==> action is Refuse,
        context@.owner == Owner::This ==> match target@ {
            TargetTag::Targets => action matches ServeAction::Targets(names) && texts(names@)
                == offered_names(context@.contents),
            TargetTag::Content(tag) => match first_of(context@.contents, tag) {
                None => action is Refuse,
                Some(bytes) => {
                    &&& action matches ServeAction::Transfer { sender, first }
                    &&& sender@ == SenderModel::idle(bytes).after_begin(
                        threshold as nat,
                        now,
                        timeout,
                    )
                    &&& bytes.len() <= threshold ==> (first matches SendAction::WriteAll(all)
                        && all@ == bytes)
                    &&& bytes.len() > threshold ==> first == (SendAction::Announce {
                        total: bytes.len() as usize,
                    })
                },
            },
        },
{
    match context.owner() {
        Owner::This => {},
        _ => {
            return ServeAction::Refuse;
        },
    }
    match target {
        Target::Targets => {
            let formats = context.formats();
            let mut names: Vec<String> = Vec::new();
            names.push(String::from_str("TARGETS"));
            let ghost wanted = offered_names(context@.contents);
            let mut i: usize = 0;
            while i < formats.len()
                invariant
                    0 <= i <= formats@.len(),
                    formats@.len() == context@.contents.len(),
                    forall|j: int|
                        0 <= j < formats@.len() ==> (#[trigger] formats@[j])@
                            == context@.contents[j].format,
                    wanted == offered_names(context@.contents),
                    names@.len() == i + 1,
                    forall|j: int| 0 <= j < names@.len() ==> (#[trigger] names@[j])@ == wanted[j],
                decreases formats@.len() - i,
            {
                names.push(atom_name(&formats[i]));
                i += 1;
            }
            assert(texts(names@) =~= wanted);
            ServeAction::Targets(names)
        },
        Target::Content(format) => {
            match context.first(format) {
                None => ServeAction::Refuse,
                Some(bytes) => {
                    let mut sender = IncrSender::new(bytes);
                    let first = sender.begin(threshold, now, timeout);
                    ServeAction::Transfer { sender, first }
                },
            }
        },
    }
}

/// Where a read of the selection stands.
#[derive(Debug, Clone, Copy, PartialEq, Eq, Structural)]
pub enum ReadPhase {
    /// Nothing has been requested.
    Idle,
    /// The conversion was requested; the owner has not answered.
    AwaitingNotify,
    /// The owner answered with a property that has not been read yet.
    AwaitingProperty,
    /// An incremental transfer is running; more chunks are expected.
    Collecting,
    /// All bytes have arrived.
    Complete,
    /// The owner answered that it cannot deliver the format.
    Unavailable,
    /// A deadline passed before the awaited event arrived.
    TimedOut,
}

/// What the requester has to do next.
#[derive(Debug, Clone, Copy, PartialEq, Eq, Structural)]
pub enum ReadAction {
    /// Nothing.
    Nothing,
    /// Ask the owner to convert the selection into the property.
    ConvertSelection,
    /// Read the property.
    FetchProperty,
    /// Delete the property, which tells the owner that it was read.
    DeleteProperty,
    /// Stop waiting.
    Abandon,
}

/// The mathematical value of a read.
pub struct ReadModel {
    pub phase: ReadPhase,
    pub buffer: Seq<u8>,
    pub deadline: u64,
    pub timeout: u64,
}

impl ReadModel {
    /// Whether the read is waiting for an event.
    pub open spec fn waiting(self) -> bool {
        self.phase == ReadPhase::AwaitingNotify || self.phase == ReadPhase::AwaitingProperty
            || self.phase == ReadPhase::Collecting
    }

    /// Whether the read is waiting and its deadline has passed at `now`.
    pub open spec fn expired(self, now: u64) -> bool {
        self.waiting() && now >= self.deadline
    }

    /// This read in another phase.
    pub open spec fn in_phase(self, phase: ReadPhase) -> ReadModel {
        ReadModel { phase, ..self }
    }

    /// This read in another phase, with a new deadline counted from `now`.
    pub open spec fn awaiting(self, phase: ReadPhase, now: u64) -> ReadModel {
        ReadModel { phase, deadline: deadline_after(now, self.timeout), ..self }
    }

    /// The read after it was started at `now` with the given timeout.
    pub open spec fn after_start(self, now: u64, timeout: u64) -> ReadModel {
        if self.phase == ReadPhase::Idle {
            ReadModel {
                phase: ReadPhase::AwaitingNotify,
                buffer: self.buffer,
                deadline: deadline_after(now, timeout),
                timeout,
            }
        } else {
            self
        }
    }

    /// The read after time was seen to have reached `now`.
    pub open spec fn after_tick(self, now: u64) -> ReadModel {
        if self.expired(now) {
            self.in_phase(ReadPhase::TimedOut)
        } else {
            self
        }
    }

    /// The read after the owner's answer arrived at `now`; `delivered` says
    /// whether the answer names a property.
    pub open spec fn after_notify(self, now: u64, delivered: bool) -> ReadModel {
        if self.expired(now) {
            self.in_phase(ReadPhase::TimedOut)
        } else if self.phase != ReadPhase::AwaitingNotify {
            self
        } else if delivered {
            self.awaiting(ReadPhase::AwaitingProperty, now)
        } else {
            self.in_phase(ReadPhase::Unavailable)
        }
    }

    /// The read after the property was read at `now`; `incremental` says
    /// whether it announces an incremental transfer instead of holding the
    /// content.
    pub open spec fn after_property(self, now: u64, incremental: bool, data: Seq<u8>) -> ReadModel {
        if self.expired(now) {
            self.in_phase(ReadPhase::TimedOut)
        } else if self.phase != ReadPhase::AwaitingProperty {
            self
        } else if incremental {
            ReadModel { buffer: Seq::empty(), ..self.awaiting(ReadPhase::Collecting, now) }
        } else {
            ReadModel { buffer: data, ..self.in_phase(ReadPhase::Complete) }
        }
    }

    /// The read after a chunk of an incremental transfer arrived at `now`.
    pub open spec fn after_chunk(self, now: u64, chunk: Seq<u8>) -> ReadModel {
        if self.expired(now) {
            self.in_phase(ReadPhase::TimedOut)
        } else if self.phase != ReadPhase::Collecting {
            self
        } else if chunk.len() == 0 {
            self.in_phase(ReadPhase::Complete)
        } else {
            ReadModel { buffer: self.buffer + chunk, ..self.awaiting(ReadPhase::Collecting, now) }
        }
    }
}

/// The requester's side of one transfer.
#[derive(Debug)]
pub struct SelectionRead {
    phase: ReadPhase,
    buffer: Vec<u8>,
    deadline: u64,
    timeout: u64,
}

impl View for SelectionRead {
    type V = ReadModel;

    closed spec fn view(&self) -> ReadModel {
        ReadModel {
            phase: self.phase,
            buffer: self.buffer@,
            deadline: self.deadline,
            timeout: self.timeout,
        }
    }
}

impl SelectionRead {
    /// A read that has not been started.
    pub fn new() -> (out: SelectionRead)
        ensures
            out@ == (ReadModel {
                phase: ReadPhase::Idle,
                buffer: Seq::empty(),
                deadline: 0,
                timeout: 0,
            }),
    {
        SelectionRead { phase: ReadPhase::Idle, buffer: Vec::new(), deadline: 0, timeout: 0 }
    }

    /// Where the read stands.
    pub fn phase(&self) -> (phase: ReadPhase)
        ensures
            phase == self@.phase,
    {
        self.phase
    }

    fn is_waiting(&self) -> (waiting: bool)
        ensures
            waiting == self@.waiting(),
    {
        match self.phase {
            ReadPhase::AwaitingNotify | ReadPhase::AwaitingProperty | ReadPhase::Collecting => true,
            _ => false,
        }
    }

    /// How long the caller may still wait for the next event: nothing when
    /// the read does not wait or its deadline has passed.
    pub fn time_left(&self, now: u64) -> (left: u64)
        ensures
            left == if self@.waiting() && now < self@.deadline {
                (self@.deadline - now) as u64
            } else {
                0
            },
    {
        if self.is_waiting() && now < self.deadline {
            self.deadline - now
        } else {
            0
        }
    }

    /// Starts the read at `now`; each wait may take `timeout`.
    pub fn start(&mut self, now: u64, timeout: u64) -> (action: ReadAction)
        ensures
            final(self)@ == old(self)@.after_start(now, timeout),
            action == if old(self)@.phase == ReadPhase::Idle {
                ReadAction::ConvertSelection
            } else {
                ReadAction::Nothing
            },
    {
        match self.phase {
            ReadPhase::Idle => {
                self.phase = ReadPhase::AwaitingNotify;
                self.timeout = timeout;
                self.deadline = deadline(now, timeout);
                ReadAction::ConvertSelection
            },
            _ => ReadAction::Nothing,
        }
    }

    /// No event arrived; time has reached `now`. A read whose deadline has
    /// passed is given up.
    pub fn on_tick(&mut self, now: u64) -> (action: ReadAction)
        ensures
            final(self)@ == old(self)@.after_tick(now),
            action == if old(self)@.expired(now) {
                ReadAction::Abandon
            } else {
                ReadAction::Nothing
            },
    {
        if self.is_waiting() && now >= self.deadline {
            self.phase = ReadPhase::TimedOut;
            ReadAction::Abandon
        } else {
            ReadAction::Nothing
        }
    }

    /// The owner's answer arrived at `now`. An answer without a property
    /// means that the format is not available.
    pub fn on_notify(&mut self, now: u64, delivered: bool) -> (action: ReadAction)
        ensures
            final(self)@ == old(self)@.after_notify(now, delivered),
            action == if old(self)@.expired(now) {
                ReadAction::Abandon
            } else if old(self)@.phase == ReadPhase::AwaitingNotify && delivered {
                ReadAction::FetchProperty
            } else {
                ReadAction::Nothing
            },
    {
        if self.is_waiting() && now >= self.deadline {
            self.phase = ReadPhase::TimedOut;
            return ReadAction::Abandon;
        }
        match self.phase {
            ReadPhase::AwaitingNotify => {
                if delivered {
                    self.phase = ReadPhase::AwaitingProperty;
                    self.deadline = deadline(now, self.timeout);
                    ReadAction::FetchProperty
                } else {
                    self.phase = ReadPhase::Unavailable;
                    ReadAction::Nothing
                }
            },
            _ => ReadAction::Nothing,
        }
    }

    /// The property was read at `now`. It either holds the content or
    /// announces an incremental transfer; either way it is deleted next.
    pub fn on_property(&mut self, now: u64, incremental: bool, data: &[u8]) -> (action: ReadAction)
        ensures
            final(self)@ == old(self)@.after_property(now, incremental, data@),
            action == if old(self)@.expired(now) {
                ReadAction::Abandon
            } else if old(self)@.phase == ReadPhase::AwaitingProperty {
                ReadAction::DeleteProperty
            } else {
                ReadAction::Nothing
            },
    {
        if self.is_waiting() && now >= self.deadline {
            self.phase = ReadPhase::TimedOut;
            return ReadAction::Abandon;
        }
        match self.phase {
            ReadPhase::AwaitingProperty => {
                self.buffer = Vec::new();
                if incremental {
                    self.phase = ReadPhase::Collecting;
                    self.deadline = deadline(now, self.timeout);
                } else {
                    append_bytes(&mut self.buffer, data);
                    self.phase = ReadPhase::Complete;
                    assert(self.buffer@ =~= data@);
                }
                ReadAction::DeleteProperty
            },
            _ => ReadAction::Nothing,
        }
    }

    /// A chunk of an incremental transfer arrived at `now`. Chunks are put
    /// together in the order of their arrival; an empty chunk ends the
    /// transfer. The property is deleted after each chunk.
    pub fn on_chunk(&mut self, now: u64, chunk: &[u8]) -> (action: ReadAction)
        ensures
            final(self)@ == old(self)@.after_chunk(now, chunk@),
            action == if old(self)@.expired(now) {
                ReadAction::Abandon
            } else if old(self)@.phase == ReadPhase::Collecting {
                ReadAction::DeleteProperty
            } else {
                ReadAction::Nothing
            },
    {
        if self.is_waiting() && now >= self.deadline {
            self.phase = ReadPhase::TimedOut;
            return ReadAction::Abandon;
        }
        match self.phase {
            ReadPhase::Collecting => {
                if chunk.len() == 0 {
                    self.phase = ReadPhase::Complete;
                } else {
                    append_bytes(&mut self.buffer, chunk);
                    self.deadline = deadline(now, self.timeout);
                }
                ReadAction::DeleteProperty
            },
            _ => ReadAction::Nothing,
        }
    }

    /// The outcome of the read: the bytes of a complete read,
    /// `FormatNotAvailable` where the owner could not deliver, `ReadFailed`
    /// for a read that was never started, and `Timeout` for a read that was
    /// given up or is still waiting.
    pub fn finish(self) -> (out: Result<Vec<u8>, ClipboardError>)
        ensures
            match self@.phase {
                ReadPhase::Complete => out is Ok && out.unwrap()@ == self@.buffer,
                ReadPhase::Unavailable => out == Err::<Vec<u8>, ClipboardError>(
                    ClipboardError::FormatNotAvailable,
                ),
                ReadPhase::Idle => out == Err::<Vec<u8>, ClipboardError>(ClipboardError::ReadFailed),
                _ => out == Err::<Vec<u8>, ClipboardError>(ClipboardError::Timeout),
            },
    {
        match self.phase {
            ReadPhase::Complete => Ok(self.buffer),
            ReadPhase::Unavailable => Err(ClipboardError::FormatNotAvailable),
            ReadPhase::Idle => Err(ClipboardError::ReadFailed),
            _ => Err(ClipboardError::Timeout),
        }
    }
}

/// Bounded waiting: a read that was started and has seen no answer is given
/// up by the first tick at or after its deadline, and from then on no event
/// revives it.
pub proof fn lemma_unanswered_read_times_out(
    started: u64,
    timeout: u64,
    now: u64,
    later: u64,
    delivered: bool,
    incremental: bool,
    data: Seq<u8>,
)
    requires
        now >= deadline_after(started, timeout),
    ensures
        ({
            let idle = ReadModel {
                phase: ReadPhase::Idle,
                buffer: Seq::empty(),
                deadline: 0,
                timeout: 0,
            };
            let given_up = idle.after_start(started, timeout).after_tick(now);
            &&& given_up.phase == ReadPhase::TimedOut
            &&& given_up.after_tick(later) == given_up
            &&& given_up.after_notify(later, delivered) == given_up
            &&& given_up.after_property(later, incremental, data) == given_up
            &&& given_up.after_chunk(later, data) == given_up
        }),
{
}

/// No event is accepted late: whatever a waiting read is waiting for, an
/// event that arrives at or after the deadline ends the read as timed out.
pub proof fn lemma_late_events_time_out(
    read: ReadModel,
    now: u64,
    delivered: bool,
    incremental: bool,
    data: Seq<u8>,
)
    requires
        read.expired(now),
    ensures
        read.after_tick(now).phase == ReadPhase::TimedOut,
        read.after_notify(now, delivered).phase == ReadPhase::TimedOut,
        read.after_property(now, incremental, data).phase == ReadPhase::TimedOut,
        read.after_chunk(now, data).phase == ReadPhase::TimedOut,
{
}

/// The property through which a request is answered: the one that the
/// request names, or the target itself where it names none, as requesters
/// of the older convention do.
pub fn reply_property(property: u32, target: u32) -> (out: u32)
    ensures
        out == if property == 0 {
            target
        } else {
            property
        },
{
    if property == 0 {
        target
    } else {
        property
    }
}

/// What a read of several formats from another owner has found so far,
/// after the read of `format` ended with `outcome`: bytes are kept as a
/// payload, a format that is not available is passed over, and every
/// other failure ends the whole read.
pub fn note_read(
    found: &mut Vec<ClipboardPayload>,
    format: ContentFormat,
    outcome: Result<Vec<u8>, ClipboardError>,
) -> (out: Result<(), ClipboardError>)
    ensures
        match outcome {
            Ok(bytes) => out == Ok::<(), ClipboardError>(()) && final(found)@ == old(found)@.push(
                ClipboardPayload { format, bytes },
            ),
            Err(ClipboardError::FormatNotAvailable) => out == Ok::<(), ClipboardError>(())
                && final(found)@ == old(found)@,
            Err(e) => out == Err::<(), ClipboardError>(e) && final(found)@ == old(found)@,
        },
{
    match outcome {
        Ok(bytes) => {
            found.push(ClipboardPayload::new(format, bytes));
            Ok(())
        },
        Err(ClipboardError::FormatNotAvailable) => Ok(()),
        Err(e) => Err(e),
    }
}

/// The result of a read of several formats: what was found, or
/// `FormatNotAvailable` where nothing was.
pub fn finish_reads(found: Vec<ClipboardPayload>) -> (out: Result<
    Vec<ClipboardPayload>,
    ClipboardError,
>)
    ensures
        found@.len() > 0 ==> out == Ok::<Vec<ClipboardPayload>, ClipboardError>(found),
        found@.len() == 0 ==> out == Err::<Vec<ClipboardPayload>, ClipboardError>(
            ClipboardError::FormatNotAvailable,
        ),
{
    if found.len() == 0 {
        Err(ClipboardError::FormatNotAvailable)
    } else {
        Ok(found)
    }
}

/// While no deadline passes, a read that collects an incremental transfer
/// treats each chunk as a receiver does: it keeps the same bytes and is
/// complete at the same chunk.
pub proof fn lemma_read_follows_receiver(read: ReadModel, now: u64, chunk: Seq<u8>)
    requires
        read.phase == ReadPhase::Collecting,
        !read.expired(now),
    ensures
        ({
            let receiver = ReceiverModel { buffer: read.buffer, phase: ReceivePhase::Collecting };
            &&& read.after_chunk(now, chunk).buffer == receiver.after_chunk(chunk).buffer
            &&& read.after_chunk(now, chunk).phase == ReadPhase::Complete <==> receiver.after_chunk(
                chunk,
            ).phase == ReceivePhase::Complete
            &&& read.after_chunk(now, chunk).phase == ReadPhase::Collecting <==> receiver.after_chunk(
                chunk,
            ).phase == ReceivePhase::Collecting
        }),
{
}

/// The largest payload that goes out in one piece, and the largest chunk
/// of an incremental transfer: half of what one request to the server may
/// hold, so that the request around the data always fits.
pub fn transfer_threshold(maximum_request_bytes: usize) -> (threshold: usize)
    ensures
        threshold == maximum_request_bytes / 2,
{
    maximum_request_bytes / 2
}

/// Whether `wanted` is among the targets that another owner offers, given
/// how the read of its target list ended: a list that came says so itself,
/// an owner that has no list or does not answer in time offers nothing,
/// and every other failure is passed on. `little` says whether the client
/// writes the least significant byte first.
pub fn offered(outcome: Result<Vec<u8>, ClipboardError>, little: bool, wanted: u32) -> (out: Result<
    bool,
    ClipboardError,
>)
    ensures
        match outcome {
            Ok(bytes) => out == Ok::<bool, ClipboardError>(
                atoms_in(bytes@, little).contains(wanted),
            ),
            Err(ClipboardError::FormatNotAvailable) | Err(ClipboardError::Timeout) => out == Ok::<
                bool,
                ClipboardError,
            >(false),
            Err(e) => out == Err::<bool, ClipboardError>(e),
        },
{
    match outcome {
        Ok(bytes) => {
            let atoms = atom_list(bytes.as_slice(), little);
            Ok(lists_atom(&atoms, wanted))
        },
        Err(ClipboardError::FormatNotAvailable) => Ok(false),
        Err(ClipboardError::Timeout) => Ok(false),
        Err(e) => Err(e),
    }
}

} // verus!
