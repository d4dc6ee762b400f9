//! The command link between host and robot: framing, per-command
//! lifecycle, and timeout-driven retransmission.
//!
//! Outbound messages are serialized, framed behind a start byte and a
//! length, and queued for the transmitter.  Inbound bytes run through a
//! small receiver machine — hunt for the start byte, read the length,
//! collect the body — and a completed body is corrected and decoded.  Each
//! issued command gets a handle, keyed by a fresh identifier, that moves
//! from not-started through started to finished as acknowledgements and
//! completion notices arrive; commands still unacknowledged after the
//! retry timeout are re-enqueued.

use vstd::prelude::*;

use crate::commands::Command;
use crate::message::{
    deserialize_spec, encoded_block, IdType, Message, MessageBuffer, MessageDeserializeErorr,
    MessageSerializeErorr, MAX_MESSAGE_LEN,
};

verus! {

pub const BAUD_RATE: u32 = 1_000_000;

/// First byte of every frame on the wire.
pub const START_BYTE: u8 = 0x55;

/// Milliseconds an issued command may stay unacknowledged before it is
/// sent again.
pub const RETRY_TIMEOUT: u32 = 50;

/// How many frames the outbound queue is sized for.
pub const INTERFACING_QUEUE_SIZE: usize = 5;

/// How many command handles the registry is sized for.
pub const REGISTRY_CAPACITY: usize = 4;

/// The receiver machine: hunting for the start byte, expecting the length
/// byte, or collecting a body of the given length.
#[derive(Clone, Copy, PartialEq, Eq, Structural, Debug)]
pub enum ReceiveStatus {
    NotStarted,
    Started,
    Receiving(usize),
}

/// The identifier of one issued command.
#[derive(Clone, Copy, PartialEq, Eq, Structural, Debug)]
pub struct CommandId(pub IdType);

impl CommandId {
    pub fn new(id: IdType) -> (r: Self)
        ensures
            r.0 == id,
    {
        Self(id)
    }

    /// The raw identifier.
    pub fn value(&self) -> (r: IdType)
        ensures
            r == self.0,
    {
        self.0
    }
}

/// Where one command stands in its lifecycle.
#[derive(Clone, Copy, PartialEq, Eq, Structural, Debug)]
pub enum CommandExecutionStatus {
    NotStarted,
    Started,
    Finished,
}

/// The lifecycle record of one in-flight command.
#[derive(Clone, Copy, PartialEq, Eq, Structural, Debug)]
pub struct CommandHandle {
    pub status: CommandExecutionStatus,
    pub command: Command,
    pub enqueue_time: Option<u32>,
}

impl CommandHandle {
    pub fn new(command: Command, enqueue_time: Option<u32>) -> (r: Self)
        ensures
            r.status == CommandExecutionStatus::NotStarted,
            r.command == command,
            r.enqueue_time == enqueue_time,
    {
        Self { status: CommandExecutionStatus::NotStarted, command, enqueue_time }
    }
}

/// Why handling a received byte failed: the frame would not decode, a
/// lifecycle message named an unknown command, or a received command found
/// the registry or the execution queue full.  Saturation rejects the
/// command and touches nothing else; sizing is meant to be prevented by
/// flow control.
#[derive(Clone, Copy, PartialEq, Eq, Structural, Debug)]
pub enum UpdateErorr {
    Decode(MessageDeserializeErorr),
    BadId(IdType),
    Saturated,
}

/// A whole frame as the transmitter sends it: the start byte, the body
/// length, and the body.
pub open spec fn frame_of(m: Message) -> Seq<u8> {
    seq![START_BYTE, encoded_block(m).len() as u8] + encoded_block(m)
}

/// The unsigned wrap-aware difference `now - then` on a 32-bit monotonic
/// tick counter.
pub open spec fn elapsed(now: u32, then: u32) -> int {
    if now >= then {
        now - then
    } else {
        now - then + 0x1_0000_0000
    }
}

/// Whether a handle's command is due for retransmission at `now`.
pub open spec fn timed_out(h: CommandHandle, now: u32) -> bool {
    &&& h.status == CommandExecutionStatus::NotStarted
    &&& h.enqueue_time matches Some(t) && elapsed(now, t) > RETRY_TIMEOUT
}

/// The frames that one pass of `retry_timed_out` enqueues: one `Command`
/// frame per timed-out handle, in registry order.
pub open spec fn retry_frames(entries: Seq<(IdType, CommandHandle)>, now: u32) -> Seq<Seq<u8>>
    decreases entries.len(),
{
    if entries.len() == 0 {
        Seq::empty()
    } else {
        retry_frames(entries.drop_last(), now)
            + if timed_out(entries.last().1, now) {
                seq![frame_of(Message::Command(entries.last().0, entries.last().1.command))]
            } else {
                Seq::empty()
            }
    }
}

/// At most one retry frame per registry entry.
pub proof fn lemma_retry_frames_len(entries: Seq<(IdType, CommandHandle)>, now: u32)
    ensures
        retry_frames(entries, now).len() <= entries.len(),
    decreases entries.len(),
{
    if entries.len() > 0 {
        lemma_retry_frames_len(entries.drop_last(), now);
    }
}

/// The link state: the outbound frame queue, the identifier counter, the
/// queue of received commands waiting to run, the registry of command
/// handles, and the receiver machine.
pub struct Interfacing {
    pub send: Vec<MessageBuffer>,

    pub next_id: IdType,

    pub waiting_execute: Vec<CommandId>,
    pub commands: Vec<(IdType, CommandHandle)>,

    pub receiving_status: ReceiveStatus,
    pub receiving_buffer: MessageBuffer,
}

impl Interfacing {
    /// The outbound queue as byte strings.
    pub open spec fn send_frames(self) -> Seq<Seq<u8>> {
        self.send@.map(|i: int, b: MessageBuffer| b@)
    }

    /// The waiting-to-execute queue as raw identifiers.
    pub open spec fn waiting_ids(self) -> Seq<IdType> {
        self.waiting_execute@.map(|i: int, c: CommandId| c.0)
    }

    pub open spec fn has_id(self, id: IdType) -> bool {
        exists|i: int| 0 <= i < self.commands@.len() && self.commands@[i].0 == id
    }

    /// The registry position of an identifier; meaningful when `has_id`.
    pub open spec fn id_index(self, id: IdType) -> int {
        choose|i: int| 0 <= i < self.commands@.len() && self.commands@[i].0 == id
    }

    /// The handle registered under an identifier; meaningful when `has_id`.
    pub open spec fn entry_of(self, id: IdType) -> CommandHandle {
        self.commands@[self.id_index(id)].1
    }

    /// The link invariant: registry identifiers are unique, the registry,
    /// the execution queue and the outbound queue stay within the
    /// capacities they are sized for, and the receiver buffer agrees with
    /// the receiver state — empty outside a body, shorter than the
    /// announced length inside one, which itself fits the frame bound.
    pub open spec fn wf(self) -> bool {
        &&& forall|i: int, j: int|
            0 <= i < j < self.commands@.len()
                ==> self.commands@[i].0 != self.commands@[j].0
        &&& self.commands@.len() <= REGISTRY_CAPACITY
        &&& self.waiting_execute@.len() <= REGISTRY_CAPACITY
        &&& self.send@.len() <= INTERFACING_QUEUE_SIZE
        &&& match self.receiving_status {
            ReceiveStatus::NotStarted => self.receiving_buffer@.len() == 0,
            ReceiveStatus::Started => self.receiving_buffer@.len() == 0,
            ReceiveStatus::Receiving(size) => self.receiving_buffer@.len() < size
                && size <= MAX_MESSAGE_LEN,
        }
    }

    /// The outbound side, the registry and the counter are untouched.
    pub open spec fn same_link(pre: Self, post: Self) -> bool {
        &&& post.send@ == pre.send@
        &&& post.next_id == pre.next_id
        &&& post.waiting_execute@ == pre.waiting_execute@
        &&& post.commands@ == pre.commands@
    }

    /// The receiver is untouched.
    pub open spec fn same_recv(pre: Self, post: Self) -> bool {
        &&& post.receiving_status == pre.receiving_status
        &&& post.receiving_buffer@ == pre.receiving_buffer@
    }

    /// The registry with `h` stored under `id`: replacing the handle in
    /// place when the identifier is present, appended otherwise.
    pub open spec fn upsert_spec(
        entries: Seq<(IdType, CommandHandle)>,
        id: IdType,
        h: CommandHandle,
    ) -> Seq<(IdType, CommandHandle)> {
        if exists|i: int| 0 <= i < entries.len() && entries[i].0 == id {
            entries.update(
                choose|i: int| 0 <= i < entries.len() && entries[i].0 == id,
                (id, h),
            )
        } else {
            entries.push((id, h))
        }
    }

    /// What one received byte does: the whole receiver grammar.  Noise
    /// before the start byte is ignored; a length outside 1..=40 drops the
    /// frame and resets the receiver; body bytes accumulate until the
    /// announced length is reached, and the completed body is corrected,
    /// decoded and acted on.  Every malformed input leaves the receiver in
    /// `NotStarted`.
    pub open spec fn recv_step(
        pre: Self,
        post: Self,
        byte: u8,
        r: Result<(), UpdateErorr>,
    ) -> bool {
        match pre.receiving_status {
            ReceiveStatus::NotStarted => {
                &&& Self::same_link(pre, post)
                &&& post.receiving_buffer@ == pre.receiving_buffer@
                &&& post.receiving_status == (if byte == START_BYTE {
                    ReceiveStatus::Started
                } else {
                    ReceiveStatus::NotStarted
                })
                &&& r is Ok
            },
            ReceiveStatus::Started => {
                &&& Self::same_link(pre, post)
                &&& post.receiving_buffer@ == pre.receiving_buffer@
                &&& if 1 <= byte <= MAX_MESSAGE_LEN as u8 {
                    post.receiving_status == ReceiveStatus::Receiving(byte as usize) && r is Ok
                } else {
                    post.receiving_status == ReceiveStatus::NotStarted
                        && r == Err::<(), UpdateErorr>(
                            UpdateErorr::Decode(MessageDeserializeErorr::Ecc),
                        )
                }
            },
            ReceiveStatus::Receiving(size) => {
                let body = pre.receiving_buffer@.push(byte);
                if body.len() < size {
                    &&& Self::same_link(pre, post)
                    &&& post.receiving_status == pre.receiving_status
                    &&& post.receiving_buffer@ == body
                    &&& r is Ok
                } else {
                    &&& post.receiving_status == ReceiveStatus::NotStarted
                    &&& post.receiving_buffer@ == Seq::<u8>::empty()
                    &&& Self::frame_outcome(pre, post, body, r)
                }
            },
        }
    }

    /// Whether a received command can be taken in: its identifier is
    /// already registered or the registry has room, and the execution
    /// queue has room.
    pub open spec fn can_accept_command(pre: Self, id: IdType) -> bool {
        &&& pre.has_id(id) || pre.commands@.len() < REGISTRY_CAPACITY
        &&& pre.waiting_execute@.len() < REGISTRY_CAPACITY
    }

    /// What a completed frame body does to the link state.
    pub open spec fn frame_outcome(
        pre: Self,
        post: Self,
        body: Seq<u8>,
        r: Result<(), UpdateErorr>,
    ) -> bool {
        match deserialize_spec(body) {
            Result::Err(e) => {
                &&& Self::same_link(pre, post)
                &&& r == Err::<(), UpdateErorr>(UpdateErorr::Decode(e))
            },
            Result::Ok(m) => match m {
                Message::Command(id, cmd) => {
                    if Self::can_accept_command(pre, id) {
                        &&& post.commands@ == Self::upsert_spec(
                            pre.commands@,
                            id,
                            (CommandHandle {
                                status: CommandExecutionStatus::NotStarted,
                                command: cmd,
                                enqueue_time: Option::None,
                            }),
                        )
                        &&& post.waiting_ids() == pre.waiting_ids().push(id)
                        &&& post.send@ == pre.send@
                        &&& post.next_id == pre.next_id
                        &&& r is Ok
                    } else {
                        &&& Self::same_link(pre, post)
                        &&& r == Err::<(), UpdateErorr>(UpdateErorr::Saturated)
                    }
                },
                Message::Ack(id) => Self::status_outcome(
                    pre, post, id, CommandExecutionStatus::Started, r,
                ),
                Message::Done(id) => Self::status_outcome(
                    pre, post, id, CommandExecutionStatus::Finished, r,
                ),
            },
        }
    }

    /// A lifecycle message moves the named handle to `status`; an unknown
    /// identifier is reported and changes nothing.
    pub open spec fn status_outcome(
        pre: Self,
        post: Self,
        id: IdType,
        status: CommandExecutionStatus,
        r: Result<(), UpdateErorr>,
    ) -> bool {
        if pre.has_id(id) {
            &&& post.commands@ == pre.commands@.update(
                pre.id_index(id),
                (id, (CommandHandle { status, ..pre.entry_of(id) })),
            )
            &&& post.send@ == pre.send@
            &&& post.next_id == pre.next_id
            &&& post.waiting_execute@ == pre.waiting_execute@
            &&& r is Ok
        } else {
            &&& Self::same_link(pre, post)
            &&& r == Err::<(), UpdateErorr>(UpdateErorr::BadId(id))
        }
    }

    pub fn new() -> (r: Self)
        ensures
            r.wf(),
            r.send@.len() == 0,
            r.next_id == 0,
            r.waiting_execute@.len() == 0,
            r.commands@.len() == 0,
            r.receiving_status == ReceiveStatus::NotStarted,
            r.receiving_buffer@.len() == 0,
    {
        Self {
            send: Vec::new(),
            next_id: 0,
            waiting_execute: Vec::new(),
            commands: Vec::new(),
            receiving_status: ReceiveStatus::NotStarted,
            receiving_buffer: Vec::new(),
        }
    }

    /// The registry position of an identifier.
    fn find_index(&self, id: IdType) -> (r: Option<usize>)
        requires
            self.wf(),
        ensures
            match r {
                Option::Some(i) => self.has_id(id) && self.id_index(id) == i as int
                    && i < self.commands@.len(),
                Option::None => !self.has_id(id),
            },
    {
        let mut i: usize = 0;
        while i < self.commands.len()
            invariant
                self.wf(),
                i <= self.commands@.len(),
                forall|k: int| 0 <= k < i ==> self.commands@[k].0 != id,
            decreases self.commands@.len() - i,
        {
            if self.commands[i].0 == id {
                proof {
                    assert(self.commands@[i as int].0 == id);
                    let j = self.id_index(id);
                    assert(0 <= j < self.commands@.len() && self.commands@[j].0 == id);
                    assert(j == i as int);
                }
                return Some(i);
            }
            i = i + 1;
        }
        None
    }

    /// Issues a command: assigns the next identifier, queues exactly one
    /// `Command` frame carrying it, and registers a not-started handle
    /// stamped with `time`.  The identifier is the counter's value, so it
    /// is strictly greater than every identifier issued before; should the
    /// counter meet a registered identifier, the handle is replaced in
    /// place.
    pub fn execute(&mut self, command: Command, time: Option<u32>) -> (r: Result<
        CommandId,
        MessageSerializeErorr,
    >)
        requires
            old(self).wf(),
            old(self).has_id(old(self).next_id)
                || old(self).commands@.len() < REGISTRY_CAPACITY,
            old(self).send@.len() < INTERFACING_QUEUE_SIZE,
            old(self).next_id < IdType::MAX,
        ensures
            final(self).wf(),
            r matches Ok(cid) && cid.0 == old(self).next_id,
            final(self).next_id == old(self).next_id + 1,
            final(self).commands@ == Self::upsert_spec(
                old(self).commands@,
                old(self).next_id,
                (CommandHandle {
                    status: CommandExecutionStatus::NotStarted,
                    command,
                    enqueue_time: time,
                }),
            ),
            final(self).send_frames() == old(self).send_frames().push(
                frame_of(Message::Command(old(self).next_id, command)),
            ),
            final(self).waiting_execute@ == old(self).waiting_execute@,
            Self::same_recv(*old(self), *final(self)),
    {
        let id = self.next_id;
        self.next_id = self.next_id + 1;

        match self.send_message(&Message::Command(id, command)) {
            Result::Ok(()) => {},
            Result::Err(e) => {
                proof {
                    assert(false);
                }
                return Err(e);
            },
        }

        let handle = CommandHandle::new(command, time);
        match self.find_index(id) {
            Option::Some(i) => {
                self.commands[i] = (id, handle);
            },
            Option::None => {
                self.commands.push((id, handle));
            },
        }

        Ok(CommandId::new(id))
    }

    /// Feeds one received byte to the receiver machine; `recv_step` says
    /// everything it does.
    pub fn handle_received_byte(&mut self, byte: u8) -> (r: Result<(), UpdateErorr>)
        requires
            old(self).wf(),
        ensures
            final(self).wf(),
            Self::recv_step(*old(self), *final(self), byte, r),
    {
        match self.receiving_status {
            ReceiveStatus::NotStarted => {
                if byte == START_BYTE {
                    self.receiving_status = ReceiveStatus::Started;
                }
                Ok(())
            },
            ReceiveStatus::Started => {
                if 1 <= byte && byte <= MAX_MESSAGE_LEN as u8 {
                    self.receiving_status = ReceiveStatus::Receiving(byte as usize);
                    Ok(())
                } else {
                    self.receiving_status = ReceiveStatus::NotStarted;
                    Err(UpdateErorr::Decode(MessageDeserializeErorr::Ecc))
                }
            },
            ReceiveStatus::Receiving(size) => {
                self.receiving_buffer.push(byte);
                if self.receiving_buffer.len() == size {
                    let message = Message::deserialize(self.receiving_buffer.as_slice());
                    self.receiving_buffer.clear();
                    self.receiving_status = ReceiveStatus::NotStarted;

                    // the receiver resets whether or not the frame decodes
                    let message = match message {
                        Result::Ok(m) => m,
                        Result::Err(e) => {
                            return Err(UpdateErorr::Decode(e));
                        },
                    };

                    match message {
                        Message::Command(id, cmd) => {
                            let handle = CommandHandle::new(cmd, None);
                            let slot = self.find_index(id);
                            if (slot.is_none() && self.commands.len() >= REGISTRY_CAPACITY)
                                || self.waiting_execute.len() >= REGISTRY_CAPACITY {
                                return Err(UpdateErorr::Saturated);
                            }
                            match slot {
                                Option::Some(i) => {
                                    self.commands[i] = (id, handle);
                                },
                                Option::None => {
                                    self.commands.push((id, handle));
                                },
                            }
                            self.waiting_execute.push(CommandId::new(id));
                            proof {
                                assert(self.waiting_ids()
                                    =~= old(self).waiting_ids().push(id));
                            }
                            Ok(())
                        },
                        Message::Ack(id) => self.mark_status(id, CommandExecutionStatus::Started),
                        Message::Done(id) => self.mark_status(
                            id,
                            CommandExecutionStatus::Finished,
                        ),
                    }
                } else {
                    Ok(())
                }
            },
        }
    }

    /// Moves the handle registered under `id` to `status`.
    fn mark_status(&mut self, id: IdType, status: CommandExecutionStatus) -> (r: Result<
        (),
        UpdateErorr,
    >)
        requires
            old(self).wf(),
        ensures
            final(self).wf(),
            final(self).receiving_status == old(self).receiving_status,
            final(self).receiving_buffer@ == old(self).receiving_buffer@,
            Self::status_outcome(*old(self), *final(self), id, status, r),
    {
        match self.find_index(id) {
            Option::Some(i) => {
                let (eid, handle) = self.commands[i];
                self.commands[i] = (
                    eid,
                    CommandHandle { status, command: handle.command, enqueue_time: handle.enqueue_time },
                );
                Ok(())
            },
            Option::None => Err(UpdateErorr::BadId(id)),
        }
    }

    /// Re-enqueues every command still unacknowledged past the retry
    /// timeout, stamping it with `now`; everything else is untouched.
    pub fn retry_timed_out(&mut self, time: u32) -> (r: Result<(), MessageSerializeErorr>)
        requires
            old(self).wf(),
            old(self).send@.len() + old(self).commands@.len() <= INTERFACING_QUEUE_SIZE,
        ensures
            final(self).wf(),
            r is Ok,
            final(self).commands@.len() == old(self).commands@.len(),
            forall|i: int| 0 <= i < old(self).commands@.len()
                ==> final(self).commands@[i] == (if timed_out(old(self).commands@[i].1, time) {
                    (old(self).commands@[i].0, (CommandHandle {
                        enqueue_time: Some(time),
                        ..old(self).commands@[i].1
                    }))
                } else {
                    old(self).commands@[i]
                }),
            final(self).send_frames() == old(self).send_frames()
                + retry_frames(old(self).commands@, time),
            final(self).next_id == old(self).next_id,
            final(self).waiting_execute@ == old(self).waiting_execute@,
            Self::same_recv(*old(self), *final(self)),
    {
        let ghost pre = *old(self);
        let mut i: usize = 0;
        proof {
            assert(pre.commands@.subrange(0, 0) =~= Seq::<(IdType, CommandHandle)>::empty());
            assert(self.send_frames()
                =~= pre.send_frames() + retry_frames(pre.commands@.subrange(0, 0), time));
        }
        while i < self.commands.len()
            invariant
                self.wf(),
                i <= self.commands@.len(),
                self.commands@.len() == pre.commands@.len(),
                pre.send@.len() + pre.commands@.len() <= INTERFACING_QUEUE_SIZE,
                forall|k: int| 0 <= k < i
                    ==> self.commands@[k] == (if timed_out(pre.commands@[k].1, time) {
                        (pre.commands@[k].0, (CommandHandle {
                            enqueue_time: Some(time),
                            ..pre.commands@[k].1
                        }))
                    } else {
                        pre.commands@[k]
                    }),
                forall|k: int| i <= k < self.commands@.len()
                    ==> self.commands@[k] == pre.commands@[k],
                self.send_frames() == pre.send_frames()
                    + retry_frames(pre.commands@.subrange(0, i as int), time),
                self.next_id == pre.next_id,
                self.waiting_execute@ == pre.waiting_execute@,
                Self::same_recv(pre, *self),
            decreases self.commands@.len() - i,
        {
            let (id, handle) = self.commands[i];
            let mut sent = false;
            if matches!(handle.status, CommandExecutionStatus::NotStarted) {
                if let Option::Some(enqueue_time) = handle.enqueue_time {
                    if time.wrapping_sub(enqueue_time) > RETRY_TIMEOUT {
                        proof {
                            lemma_retry_frames_len(
                                pre.commands@.subrange(0, i as int), time);
                            assert(self.send_frames().len() == self.send@.len());
                            assert(pre.send_frames().len() == pre.send@.len());
                            assert(self.send@.len() <= pre.send@.len() + i);
                        }
                        match self.send_message(&Message::Command(id, handle.command)) {
                            Result::Ok(()) => {},
                            Result::Err(e) => {
                                proof {
                                    assert(false);
                                }
                                return Err(e);
                            },
                        }
                        self.commands[i] = (
                            id,
                            CommandHandle {
                                status: handle.status,
                                command: handle.command,
                                enqueue_time: Some(time),
                            },
                        );
                        sent = true;
                    }
                }
            }
            proof {
                assert(pre.commands@.subrange(0, i as int + 1).drop_last()
                    =~= pre.commands@.subrange(0, i as int));
                assert(pre.commands@.subrange(0, i as int + 1).last() == pre.commands@[i as int]);
                assert(self.send_frames() =~= pre.send_frames()
                    + retry_frames(pre.commands@.subrange(0, i as int + 1), time));
            }
            i = i + 1;
        }
        proof {
            assert(pre.commands@.subrange(0, pre.commands@.len() as int) =~= pre.commands@);
            lemma_retry_frames_len(pre.commands@, time);
        }
        Ok(())
    }

    /// Hands the transmitter the next outbound frame, oldest first.
    pub fn get_message_to_send(&mut self) -> (r: Option<MessageBuffer>)
        ensures
            old(self).send@.len() == 0 ==> (r is None && *final(self) == *old(self)),
            old(self).send@.len() > 0 ==> (
                r matches Some(b) && b@ == old(self).send_frames()[0]
                    && final(self).send_frames() == old(self).send_frames().subrange(
                        1, old(self).send_frames().len() as int)
                    && final(self).send@.len() == old(self).send@.len() - 1
            ),
            final(self).next_id == old(self).next_id,
            final(self).commands@ == old(self).commands@,
            final(self).waiting_execute@ == old(self).waiting_execute@,
            Self::same_recv(*old(self), *final(self)),
            old(self).wf() ==> final(self).wf(),
    {
        if self.send.len() == 0 {
            None
        } else {
            let b = self.send.remove(0);
            proof {
                assert(self.send_frames()
                    =~= old(self).send_frames().subrange(
                        1, old(self).send_frames().len() as int));
            }
            Some(b)
        }
    }

    /// Whether the command has reported completion.
    pub fn is_finished(&self, id: CommandId) -> (r: bool)
        requires
            self.wf(),
            self.has_id(id.0),
        ensures
            r == (self.entry_of(id.0).status == CommandExecutionStatus::Finished),
    {
        let i = match self.find_index(id.0) {
            Option::Some(i) => i,
            Option::None => {
                proof {
                    assert(false);
                }
                return false;
            },
        };
        matches!(self.commands[i].1.status, CommandExecutionStatus::Finished)
    }

    /// The command registered under an identifier.
    pub fn get_command(&self, id: CommandId) -> (r: Command)
        requires
            self.wf(),
            self.has_id(id.0),
        ensures
            r == self.entry_of(id.0).command,
    {
        let i = match self.find_index(id.0) {
            Option::Some(i) => i,
            Option::None => {
                proof {
                    assert(false);
                }
                return Command::Stop;
            },
        };
        self.commands[i].1.command
    }

    /// Marks a received command started and queues the acknowledgement
    /// frame for it.
    pub fn start_executing(&mut self, id: CommandId)
        requires
            old(self).wf(),
            old(self).has_id(id.0),
            old(self).send@.len() < INTERFACING_QUEUE_SIZE,
        ensures
            final(self).wf(),
            final(self).commands@ == old(self).commands@.update(
                old(self).id_index(id.0),
                (id.0, (CommandHandle {
                    status: CommandExecutionStatus::Started,
                    ..old(self).entry_of(id.0)
                })),
            ),
            final(self).send_frames() == old(self).send_frames().push(
                frame_of(Message::Ack(id.0)),
            ),
            final(self).next_id == old(self).next_id,
            final(self).waiting_execute@ == old(self).waiting_execute@,
            Self::same_recv(*old(self), *final(self)),
    {
        match self.mark_status(id.0, CommandExecutionStatus::Started) {
            Result::Ok(()) => {},
            Result::Err(_) => {
                proof {
                    assert(false);
                }
            },
        }
        match self.send_message(&Message::Ack(id.0)) {
            Result::Ok(()) => {},
            Result::Err(_) => {
                proof {
                    assert(false);
                }
            },
        }
    }

    /// Queues the completion frame for a command and drops its handle.
    pub fn finish_executing(&mut self, id: CommandId) -> (r: Result<(), MessageSerializeErorr>)
        requires
            old(self).wf(),
            old(self).send@.len() < INTERFACING_QUEUE_SIZE,
        ensures
            final(self).wf(),
            r is Ok,
            final(self).send_frames() == old(self).send_frames().push(
                frame_of(Message::Done(id.0)),
            ),
            final(self).commands@ == (if old(self).has_id(id.0) {
                old(self).commands@.remove(old(self).id_index(id.0))
            } else {
                old(self).commands@
            }),
            final(self).next_id == old(self).next_id,
            final(self).waiting_execute@ == old(self).waiting_execute@,
            Self::same_recv(*old(self), *final(self)),
    {
        match self.send_message(&Message::Done(id.0)) {
            Result::Ok(()) => {},
            Result::Err(e) => {
                proof {
                    assert(false);
                }
                return Err(e);
            },
        }

        self.drop_handle(id);

        Ok(())
    }

    /// Acknowledges a finished command by dropping its handle.
    pub fn ack_finish(&mut self, id: CommandId)
        requires
            old(self).wf(),
        ensures
            final(self).wf(),
            final(self).commands@ == (if old(self).has_id(id.0) {
                old(self).commands@.remove(old(self).id_index(id.0))
            } else {
                old(self).commands@
            }),
            final(self).send@ == old(self).send@,
            final(self).next_id == old(self).next_id,
            final(self).waiting_execute@ == old(self).waiting_execute@,
            Self::same_recv(*old(self), *final(self)),
    {
        self.drop_handle(id);
    }

    /// Removes the handle registered under an identifier, if any.
    fn drop_handle(&mut self, id: CommandId)
        requires
            old(self).wf(),
        ensures
            final(self).wf(),
            final(self).commands@ == (if old(self).has_id(id.0) {
                old(self).commands@.remove(old(self).id_index(id.0))
            } else {
                old(self).commands@
            }),
            final(self).send@ == old(self).send@,
            final(self).next_id == old(self).next_id,
            final(self).waiting_execute@ == old(self).waiting_execute@,
            Self::same_recv(*old(self), *final(self)),
    {
        match self.find_index(id.0) {
            Option::Some(i) => {
                self.commands.remove(i);
            },
            Option::None => {},
        }
    }

    /// The identifier of the next received command waiting to run, oldest
    /// first.
    pub fn get_command_to_execute(&mut self) -> (r: Option<CommandId>)
        ensures
            old(self).waiting_execute@.len() == 0 ==> (r is None && *final(self) == *old(self)),
            old(self).waiting_execute@.len() > 0 ==> (
                r == Some(old(self).waiting_execute@[0])
                    && final(self).waiting_execute@ == old(self).waiting_execute@.subrange(
                        1, old(self).waiting_execute@.len() as int)
            ),
            final(self).send@ == old(self).send@,
            final(self).next_id == old(self).next_id,
            final(self).commands@ == old(self).commands@,
            Self::same_recv(*old(self), *final(self)),
            old(self).wf() ==> final(self).wf(),
    {
        if self.waiting_execute.len() == 0 {
            None
        } else {
            Some(self.waiting_execute.remove(0))
        }
    }

    /// Frames an encoded message body: start byte, length, body.
    fn add_message_preamble(msg: &mut MessageBuffer)
        requires
            old(msg)@.len() <= MAX_MESSAGE_LEN,
        ensures
            final(msg)@ == seq![START_BYTE, old(msg)@.len() as u8] + old(msg)@,
    {
        let mut tmp: Vec<u8> = Vec::new();
        tmp.push(START_BYTE);
        tmp.push(msg.len() as u8);
        tmp.append(msg);
        *msg = tmp;
        proof {
            assert(msg@ =~= seq![START_BYTE, old(msg)@.len() as u8] + old(msg)@);
        }
    }

    /// Serializes a message, frames it, and queues the frame.
    fn send_message(&mut self, msg: &Message) -> (r: Result<(), MessageSerializeErorr>)
        requires
            old(self).send@.len() < INTERFACING_QUEUE_SIZE,
        ensures
            r is Ok,
            final(self).send_frames() == old(self).send_frames().push(frame_of(*msg)),
            final(self).next_id == old(self).next_id,
            final(self).commands@ == old(self).commands@,
            final(self).waiting_execute@ == old(self).waiting_execute@,
            Self::same_recv(*old(self), *final(self)),
            old(self).wf() ==> final(self).wf(),
    {
        let mut encoded = match msg.serialize() {
            Result::Ok(b) => b,
            Result::Err(e) => {
                proof {
                    assert(false);
                }
                return Err(e);
            },
        };
        Self::add_message_preamble(&mut encoded);
        self.send.push(encoded);
        proof {
            assert(self.send_frames()
                =~= old(self).send_frames().push(frame_of(*msg)));
        }
        Ok(())
    }
}

} // verus!
