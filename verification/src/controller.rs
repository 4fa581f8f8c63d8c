//! The domain controller.
//!
//! [`TmuxDomain`] is the externally visible lifecycle object: it composes the
//! byte-to-line decoder and the protocol state machine, and queues outgoing
//! commands for the single thread that owns write access to the embedding
//! channel.  The surrounding multiplexer consumes its capability surface:
//! identity, state, attach, detach, and spawn.
//!
//! Egress is deferred: [`TmuxDomain::send_command`] only appends to the
//! pending queue and never blocks or re-enters ingress processing; the owner
//! of the channel drains the queue in order and performs the writes.

use vstd::prelude::*;
use vstd::string::StringExecFns;

use crate::decoder::LINE_FEED;
use crate::decoder::LineDecoder;
use crate::decoder::strip_cr;
use crate::ids::DomainId;
use crate::ids::IdAllocator;
use crate::ids::TabId;
use crate::ids::WindowId;
use crate::protocol::Event;
use crate::protocol::EventModel;
use crate::protocol::MachineModel;
use crate::protocol::ProtocolState;
use crate::protocol::ReplyBlock;
use crate::protocol::StateMachine;
use crate::protocol::machine_step;
use crate::text::lossy_of;

verus! {

/// Whether the domain is attached to its source of surfaces.
#[derive(Debug, Clone, Copy, PartialEq, Eq, Structural)]
pub enum DomainState {
    Attached,
    Detached,
}

/// Why a lifecycle operation failed.
#[derive(Debug, Clone, Copy, PartialEq, Eq, Structural)]
pub enum DomainError {
    /// New remote windows are created by issuing multiplexer commands, never
    /// by a local spawn.
    SpawnUnsupported,
    /// Detaching would require a negotiated handoff with the remote
    /// multiplexer, which is not modeled.
    DetachUnsupported,
}

impl DomainError {
    /// A human-readable description of the failure.
    pub fn message(&self) -> (r: &'static str)
        ensures
            *self == DomainError::SpawnUnsupported ==> r@ == "spawn not supported by the tmux domain"@,
            *self == DomainError::DetachUnsupported ==> r@ == "detach not supported by the tmux domain"@,
    {
        match self {
            DomainError::SpawnUnsupported => "spawn not supported by the tmux domain",
            DomainError::DetachUnsupported => "detach not supported by the tmux domain",
        }
    }
}

/// The size a caller asks of a new surface.
#[derive(Clone, Copy, PartialEq, Eq, Structural)]
pub struct PtySize {
    /// Rows of text.
    pub rows: u16,
    /// Columns of text.
    pub cols: u16,
    /// Width in pixels.
    pub pixel_width: u16,
    /// Height in pixels.
    pub pixel_height: u16,
}

/// A command awaiting its write on the thread that owns the target channel.
pub struct PendingCommand {
    /// The command text, without the terminating line feed.
    pub text: String,
    /// The channel the command is to be written to.
    pub tab: TabId,
}

/// The mathematical content of a pending command.
#[verifier::ext_equal]
pub struct CommandModel {
    pub text: Seq<char>,
    pub tab: TabId,
}

impl View for PendingCommand {
    type V = CommandModel;

    open spec fn view(&self) -> CommandModel {
        CommandModel { text: self.text@, tab: self.tab }
    }
}

impl DeepView for PendingCommand {
    type V = CommandModel;

    open spec fn deep_view(&self) -> CommandModel {
        self.view()
    }
}

/// The interrogation command issued once upon reaching the ready state: it
/// asks the remote multiplexer to list its windows, one tab-separated record
/// per line.
pub open spec fn list_windows_cmd() -> Seq<char> {
    "list-windows -F '#{session_name}\t#{window_id}\t#{window_width}\t#{window_height}'"@
}

/// The interrogation command as text.
pub fn list_windows_command() -> (r: &'static str)
    ensures
        r@ == list_windows_cmd(),
{
    "list-windows -F '#{session_name}\t#{window_id}\t#{window_width}\t#{window_height}'"
}

/// An embedded remote-multiplexer session, addressable as a domain of the
/// local multiplexer.
pub struct TmuxDomain {
    /// The domain's process-wide unique identity.
    pub id: DomainId,
    /// The channel inside which the control protocol is carried.
    pub embedding_tab_id: TabId,
    /// Turns the incoming byte stream into decoded lines.
    pub decoder: LineDecoder,
    /// Classifies decoded lines and correlates reply blocks.
    pub machine: StateMachine,
    /// Commands queued for the thread that owns the embedding channel, in
    /// issue order.
    pub pending: Vec<PendingCommand>,
    /// Reply blocks completed so far, in completion order.
    pub blocks: Vec<ReplyBlock>,
    /// Standalone notification lines seen so far, in arrival order.
    pub notes: Vec<String>,
}

/// What processing one completed line does to the controller: the decoder's
/// buffer empties, the machine moves as [`machine_step`] says, a schedule
/// event queues exactly one interrogation command, and a completed block is
/// appended to the completed-block sequence.
pub open spec fn line_effect(pre: TmuxDomain, post: TmuxDomain) -> bool {
    let line = lossy_of(strip_cr(pre.decoder.buf@));
    let step = machine_step(pre.machine@, line);
    &&& post.decoder.buf@ == Seq::<u8>::empty()
    &&& post.machine@ == step.0
    &&& match step.1 {
        Some(EventModel::Schedule) => {
            &&& post.pending.deep_view() == pre.pending.deep_view().push(
                CommandModel { text: list_windows_cmd(), tab: pre.embedding_tab_id },
            )
            &&& post.blocks.deep_view() == pre.blocks.deep_view()
            &&& post.notes.deep_view() == pre.notes.deep_view()
        },
        Some(EventModel::Done { block }) => {
            &&& post.blocks.deep_view() == pre.blocks.deep_view().push(block)
            &&& post.pending.deep_view() == pre.pending.deep_view()
            &&& post.notes.deep_view() == pre.notes.deep_view()
        },
        Some(EventModel::Noted { text }) => {
            &&& post.notes.deep_view() == pre.notes.deep_view().push(text)
            &&& post.pending.deep_view() == pre.pending.deep_view()
            &&& post.blocks.deep_view() == pre.blocks.deep_view()
        },
        None => {
            &&& post.pending.deep_view() == pre.pending.deep_view()
            &&& post.blocks.deep_view() == pre.blocks.deep_view()
            &&& post.notes.deep_view() == pre.notes.deep_view()
        },
    }
}

impl TmuxDomain {
    /// The controller's invariant: the line buffer never holds a line feed.
    pub open spec fn wf(&self) -> bool {
        self.decoder.wf()
    }

    /// Construct a controller embedded in the channel `embedding_tab_id`,
    /// with a fresh identity issued by `ids`.
    pub fn new(embedding_tab_id: TabId, ids: &mut IdAllocator) -> (r: Self)
        requires
            old(ids).next < usize::MAX,
        ensures
            r.wf(),
            r.id == old(ids).next,
            final(ids).next == old(ids).next + 1,
            r.embedding_tab_id == embedding_tab_id,
            r.decoder.buf@ == Seq::<u8>::empty(),
            r.machine@ == (MachineModel { state: ProtocolState::AwaitingFirstReply, open: None }),
            r.pending.deep_view() == Seq::<CommandModel>::empty(),
            r.blocks.deep_view() == Seq::<crate::protocol::BlockModel>::empty(),
            r.notes.deep_view() == Seq::<Seq<char>>::empty(),
    {
        let id = ids.allocate();
        let r = TmuxDomain {
            id,
            embedding_tab_id,
            decoder: LineDecoder::new(),
            machine: StateMachine::new(),
            pending: Vec::new(),
            blocks: Vec::new(),
            notes: Vec::new(),
        };
        proof {
            assert(r.pending.deep_view() =~= Seq::<CommandModel>::empty());
            assert(r.blocks.deep_view() =~= Seq::<crate::protocol::BlockModel>::empty());
            assert(r.notes.deep_view() =~= Seq::<Seq<char>>::empty());
        }
        r
    }

    /// Process one byte sent by the remote peer.
    ///
    /// Until a line feed arrives the byte is only buffered.  A line feed
    /// completes a line, which moves the state machine: reaching the ready
    /// state queues the one interrogation command, a completed reply block is
    /// appended to the block sequence, and a standalone notification is
    /// appended to the note sequence for the driver to report.
    pub fn advance(&mut self, c: u8)
        requires
            old(self).wf(),
        ensures
            final(self).wf(),
            final(self).id == old(self).id,
            final(self).embedding_tab_id == old(self).embedding_tab_id,
            c != LINE_FEED ==> {
                &&& final(self).decoder.buf@ == old(self).decoder.buf@.push(c)
                &&& final(self).machine@ == old(self).machine@
                &&& final(self).pending.deep_view() == old(self).pending.deep_view()
                &&& final(self).blocks.deep_view() == old(self).blocks.deep_view()
                &&& final(self).notes.deep_view() == old(self).notes.deep_view()
            },
            c == LINE_FEED ==> line_effect(*old(self), *final(self)),
    {
        match self.decoder.advance(c) {
            Some(line) => {
                match self.machine.process_line(line) {
                    Some(Event::ScheduleInterrogation) => {
                        self.send_command(list_windows_command());
                    },
                    Some(Event::Completed { block }) => {
                        let ghost blocks0 = self.blocks.deep_view();
                        self.blocks.push(block);
                        proof {
                            assert(self.blocks.deep_view() =~= blocks0.push(block@));
                        }
                    },
                    Some(Event::Note { text }) => {
                        let ghost notes0 = self.notes.deep_view();
                        self.notes.push(text);
                        proof {
                            assert(self.notes.deep_view() =~= notes0.push(text@));
                        }
                    },
                    None => {},
                }
            },
            None => {},
        }
    }

    /// Queue `cmd` for the thread that owns the embedding channel.
    ///
    /// Fire and forget: this returns immediately, and commands issued through
    /// this path reach the channel in issue order.
    pub fn send_command(&mut self, cmd: &str)
        ensures
            final(self).wf() == old(self).wf(),
            final(self).id == old(self).id,
            final(self).embedding_tab_id == old(self).embedding_tab_id,
            final(self).decoder.buf@ == old(self).decoder.buf@,
            final(self).machine@ == old(self).machine@,
            final(self).blocks.deep_view() == old(self).blocks.deep_view(),
            final(self).notes.deep_view() == old(self).notes.deep_view(),
            final(self).pending.deep_view() == old(self).pending.deep_view().push(
                CommandModel { text: cmd@, tab: old(self).embedding_tab_id },
            ),
    {
        let ghost pending0 = self.pending.deep_view();
        let text = String::from_str(cmd);
        let tab = self.embedding_tab_id;
        self.pending.push(PendingCommand { text, tab });
        proof {
            assert(self.pending.deep_view() =~= pending0.push(
                CommandModel { text: cmd@, tab: old(self).embedding_tab_id },
            ));
        }
    }

    /// The domain's identity, stable for its lifetime.
    pub fn domain_id(&self) -> (r: DomainId)
        ensures
            r == self.id,
    {
        self.id
    }

    /// The constant name of this kind of domain.
    pub fn domain_name(&self) -> (r: &'static str)
        ensures
            r@ == "tmux"@,
    {
        "tmux"
    }

    /// The domain models an implicitly attached embedded session: it is
    /// attached from construction on and never reports itself detached.
    pub fn state(&self) -> (r: DomainState)
        ensures
            r == DomainState::Attached,
    {
        DomainState::Attached
    }

    /// Attach to the domain.  Trivially succeeds, however often it is called:
    /// re-population of remote entities is the entity mapper's concern.
    pub fn attach(&self) -> (r: Result<(), DomainError>)
        ensures
            r is Ok,
    {
        Ok(())
    }

    /// Detach from the domain.  Always fails: detaching would require a
    /// negotiated handoff with the remote multiplexer.
    pub fn detach(&self) -> (r: Result<(), DomainError>)
        ensures
            r == Err::<(), DomainError>(DomainError::DetachUnsupported),
    {
        Err(DomainError::DetachUnsupported)
    }

    /// Spawn a new surface in the domain.  Always fails: new remote windows
    /// are created by issuing multiplexer commands.
    pub fn spawn(
        &self,
        _size: PtySize,
        _command: Option<String>,
        _command_dir: Option<String>,
        _window: WindowId,
    ) -> (r: Result<TabId, DomainError>)
        ensures
            r == Err::<TabId, DomainError>(DomainError::SpawnUnsupported),
    {
        Err(DomainError::SpawnUnsupported)
    }
}

} // verus!
