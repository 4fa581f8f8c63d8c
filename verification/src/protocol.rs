//! The protocol state machine.
//!
//! The wire format multiplexes asynchronous notifications and
//! command-correlated replies with no framing beyond three marker classes:
//! `%begin <ts> <seq> <flags>` opens a reply block, `%end <ts> <seq> <flags>`
//! and `%error <ts> <seq> <flags>` close it, any other `%`-prefixed line is a
//! standalone notification, and everything else is payload of the currently
//! open block.  Payload lines are only interpretable in the context of their
//! enclosing block, so they are buffered until the closing marker arrives.
//!
//! The machine starts in [`ProtocolState::AwaitingFirstReply`] and moves to
//! [`ProtocolState::Ready`], exactly once and irreversibly, on the first
//! end-of-reply marker; the move schedules one interrogation command.
//! Unexpected input never aborts it: the peer's exact grammar is not fully
//! controlled by this side.

use vstd::prelude::*;

use crate::text::has_prefix;
use crate::text::marker_seq_exec;
use crate::text::marker_seq_spec;
use crate::text::starts_with_chars;

verus! {

/// The characters that open a reply block.
pub open spec fn begin_marker() -> Seq<char> {
    seq!['%', 'b', 'e', 'g', 'i', 'n', ' ']
}

/// The characters that close a reply block successfully.
pub open spec fn end_marker() -> Seq<char> {
    seq!['%', 'e', 'n', 'd', ' ']
}

/// The characters that close a reply block with an error.
pub open spec fn error_marker() -> Seq<char> {
    seq!['%', 'e', 'r', 'r', 'o', 'r', ' ']
}

/// How one decoded line is read by the state machine.
#[derive(Debug, Clone, Copy, PartialEq, Eq, Structural)]
pub enum LineClass {
    /// A begin marker with its correlation tag.
    Begin { seq: u64 },
    /// An end marker: the open block, if any, completes successfully.
    End { seq: u64 },
    /// An error marker: the open block, if any, completes as a failure.
    Failed { seq: u64 },
    /// Any other `%`-prefixed line: a standalone notification.  A marker
    /// whose correlation tag is missing or malformed lands here as well.
    Notification,
    /// An unprefixed line: payload of the currently open block.
    Payload,
}

/// The class of a decoded line.
pub open spec fn classify_spec(line: Seq<char>) -> LineClass {
    if has_prefix(line, begin_marker()) {
        match marker_seq_spec(line, begin_marker().len() as int) {
            Some(n) => LineClass::Begin { seq: n },
            None => LineClass::Notification,
        }
    } else if has_prefix(line, error_marker()) {
        match marker_seq_spec(line, error_marker().len() as int) {
            Some(n) => LineClass::Failed { seq: n },
            None => LineClass::Notification,
        }
    } else if has_prefix(line, end_marker()) {
        match marker_seq_spec(line, end_marker().len() as int) {
            Some(n) => LineClass::End { seq: n },
            None => LineClass::Notification,
        }
    } else if 0 < line.len() && line[0] == '%' {
        LineClass::Notification
    } else {
        LineClass::Payload
    }
}

/// Classify one decoded line.
pub fn classify(line: &str) -> (r: LineClass)
    ensures
        r == classify_spec(line@),
{
    proof {
        reveal_strlit("%begin ");
        reveal_strlit("%error ");
        reveal_strlit("%end ");
        reveal_strlit("%");
        assert("%begin "@ =~= begin_marker());
        assert("%error "@ =~= error_marker());
        assert("%end "@ =~= end_marker());
    }
    if starts_with_chars(line, "%begin ") {
        match marker_seq_exec(line, 7) {
            Some(n) => LineClass::Begin { seq: n },
            None => LineClass::Notification,
        }
    } else if starts_with_chars(line, "%error ") {
        match marker_seq_exec(line, 7) {
            Some(n) => LineClass::Failed { seq: n },
            None => LineClass::Notification,
        }
    } else if starts_with_chars(line, "%end ") {
        match marker_seq_exec(line, 5) {
            Some(n) => LineClass::End { seq: n },
            None => LineClass::Notification,
        }
    } else if starts_with_chars(line, "%") {
        proof {
            assert(has_prefix(line@, "%"@));
            assert(line@.subrange(0, 1) == "%"@);
            assert(line@.subrange(0, 1)[0] == line@[0]);
            assert(line@[0] == '%');
        }
        LineClass::Notification
    } else {
        proof {
            if 0 < line@.len() && line@[0] == '%' {
                assert(line@.subrange(0, 1) =~= "%"@);
            }
        }
        LineClass::Payload
    }
}

/// Where the machine stands in the protocol's lifecycle.
#[derive(Debug, Clone, Copy, PartialEq, Eq, Structural)]
pub enum ProtocolState {
    /// Nothing classified yet: every line but an end-of-reply marker is
    /// discarded.
    AwaitingFirstReply,
    /// The first reply has been seen; lines are classified in full.
    Ready,
}

/// A reply block that is still open: its correlation tag and the payload
/// lines gathered so far.
pub struct OpenBlock {
    /// The correlation tag of the begin marker that opened the block.
    pub seq: u64,
    /// The payload lines gathered so far, in order.
    pub payload: Vec<String>,
}

/// A completed reply block, handed downstream when its closing marker
/// arrives.
pub struct ReplyBlock {
    /// The correlation tag of the begin marker that opened the block.
    pub seq: u64,
    /// The payload lines of the block, in order.
    pub payload: Vec<String>,
    /// Whether the block was closed by an end marker rather than an error
    /// marker.
    pub ok: bool,
}

/// The mathematical content of an open block.
#[verifier::ext_equal]
pub struct OpenBlockModel {
    pub seq: u64,
    pub payload: Seq<Seq<char>>,
}

/// The mathematical content of a completed block.
#[verifier::ext_equal]
pub struct BlockModel {
    pub seq: u64,
    pub payload: Seq<Seq<char>>,
    pub ok: bool,
}

impl View for OpenBlock {
    type V = OpenBlockModel;

    open spec fn view(&self) -> OpenBlockModel {
        OpenBlockModel { seq: self.seq, payload: self.payload.deep_view() }
    }
}

impl View for ReplyBlock {
    type V = BlockModel;

    open spec fn view(&self) -> BlockModel {
        BlockModel { seq: self.seq, payload: self.payload.deep_view(), ok: self.ok }
    }
}

impl DeepView for ReplyBlock {
    type V = BlockModel;

    open spec fn deep_view(&self) -> BlockModel {
        self.view()
    }
}

/// What processing one line can hand back.
pub enum Event {
    /// The machine just reached [`ProtocolState::Ready`]: one interrogation
    /// command is to be scheduled.
    ScheduleInterrogation,
    /// A reply block completed.
    Completed { block: ReplyBlock },
    /// A standalone notification line.
    Note { text: String },
}

/// The mathematical content of an [`Event`].
#[verifier::ext_equal]
pub enum EventModel {
    Schedule,
    Done { block: BlockModel },
    Noted { text: Seq<char> },
}

/// The mathematical content of an optional [`Event`].
pub open spec fn opt_event_model(e: Option<Event>) -> Option<EventModel> {
    match e {
        Some(Event::ScheduleInterrogation) => Some(EventModel::Schedule),
        Some(Event::Completed { block }) => Some(EventModel::Done { block: block@ }),
        Some(Event::Note { text }) => Some(EventModel::Noted { text: text@ }),
        None => None,
    }
}

/// The mathematical state of the machine.
#[verifier::ext_equal]
pub struct MachineModel {
    pub state: ProtocolState,
    pub open: Option<OpenBlockModel>,
}

/// How the machine moves on one decoded line: the next state and what is
/// emitted.
pub open spec fn machine_step(m: MachineModel, line: Seq<char>) -> (MachineModel, Option<
    EventModel,
>) {
    match m.state {
        ProtocolState::AwaitingFirstReply => {
            if classify_spec(line) matches LineClass::End { .. } {
                (
                    MachineModel { state: ProtocolState::Ready, open: None },
                    Some(EventModel::Schedule),
                )
            } else {
                (m, None)
            }
        },
        ProtocolState::Ready => match classify_spec(line) {
            LineClass::Begin { seq } => (
                MachineModel {
                    state: ProtocolState::Ready,
                    open: Some(OpenBlockModel { seq, payload: Seq::empty() }),
                },
                None,
            ),
            LineClass::End { .. } => match m.open {
                Some(b) => (
                    MachineModel { state: ProtocolState::Ready, open: None },
                    Some(
                        EventModel::Done {
                            block: BlockModel { seq: b.seq, payload: b.payload, ok: true },
                        },
                    ),
                ),
                None => (m, None),
            },
            LineClass::Failed { .. } => match m.open {
                Some(b) => (
                    MachineModel { state: ProtocolState::Ready, open: None },
                    Some(
                        EventModel::Done {
                            block: BlockModel { seq: b.seq, payload: b.payload, ok: false },
                        },
                    ),
                ),
                None => (m, None),
            },
            LineClass::Notification => (m, Some(EventModel::Noted { text: line })),
            LineClass::Payload => match m.open {
                Some(b) => (
                    MachineModel {
                        state: ProtocolState::Ready,
                        open: Some(
                            OpenBlockModel { seq: b.seq, payload: b.payload.push(line) },
                        ),
                    },
                    None,
                ),
                None => (m, None),
            },
        },
    }
}

/// Classifies decoded lines and correlates payload with the reply block it
/// belongs to.  At most one block is open at a time.
pub struct StateMachine {
    /// Where the machine stands in the protocol's lifecycle.
    pub state: ProtocolState,
    /// The reply block currently open, if any.
    pub open: Option<OpenBlock>,
}

impl View for StateMachine {
    type V = MachineModel;

    open spec fn view(&self) -> MachineModel {
        MachineModel {
            state: self.state,
            open: match self.open {
                Some(b) => Some(b@),
                None => None,
            },
        }
    }
}

impl StateMachine {
    /// A machine that has seen nothing yet.
    pub fn new() -> (r: Self)
        ensures
            r@ == (MachineModel { state: ProtocolState::AwaitingFirstReply, open: None }),
    {
        StateMachine { state: ProtocolState::AwaitingFirstReply, open: None }
    }

    /// Process one decoded line: the machine moves and emits exactly as
    /// [`machine_step`] says.
    pub fn process_line(&mut self, line: String) -> (r: Option<Event>)
        ensures
            final(self)@ == machine_step(old(self)@, line@).0,
            opt_event_model(r) == machine_step(old(self)@, line@).1,
    {
        let class = classify(line.as_str());
        match self.state {
            ProtocolState::AwaitingFirstReply => match class {
                LineClass::End { seq: _ } => {
                    self.state = ProtocolState::Ready;
                    self.open = None;
                    Some(Event::ScheduleInterrogation)
                },
                _ => None,
            },
            ProtocolState::Ready => match class {
                LineClass::Begin { seq } => {
                    self.open = Some(OpenBlock { seq, payload: Vec::new() });
                    proof {
                        assert(self@.open->Some_0 =~= OpenBlockModel {
                            seq,
                            payload: Seq::empty(),
                        });
                    }
                    None
                },
                LineClass::End { seq: _ } => match self.open.take() {
                    Some(b) => Some(
                        Event::Completed {
                            block: ReplyBlock { seq: b.seq, payload: b.payload, ok: true },
                        },
                    ),
                    None => None,
                },
                LineClass::Failed { seq: _ } => match self.open.take() {
                    Some(b) => Some(
                        Event::Completed {
                            block: ReplyBlock { seq: b.seq, payload: b.payload, ok: false },
                        },
                    ),
                    None => None,
                },
                LineClass::Notification => Some(Event::Note { text: line }),
                LineClass::Payload => match &mut self.open {
                    Some(b) => {
                        let ghost payload0 = b.payload.deep_view();
                        b.payload.push(line);
                        proof {
                            assert(b.payload.deep_view() =~= payload0.push(line@));
                        }
                        None
                    },
                    None => None,
                },
            },
        }
    }
}


/// The move to the ready state happens exactly once.
///
/// From the awaiting state, exactly the end-marker lines move the machine,
/// and the move schedules one interrogation; every other line leaves it
/// untouched.  Once ready, no line moves the lifecycle state again and no
/// line ever schedules another interrogation.
pub proof fn lemma_transition_exactly_once(m: MachineModel, line: Seq<char>)
    ensures
        m.state == ProtocolState::AwaitingFirstReply && (classify_spec(line) matches LineClass::End {
            ..
        }) ==> machine_step(m, line).0.state == ProtocolState::Ready && machine_step(m, line).1
            == Some(EventModel::Schedule),
        m.state == ProtocolState::AwaitingFirstReply && !(classify_spec(line) matches LineClass::End {
            ..
        }) ==> machine_step(m, line) == (m, Option::<EventModel>::None),
        m.state == ProtocolState::Ready ==> machine_step(m, line).0.state == ProtocolState::Ready,
        m.state == ProtocolState::Ready ==> machine_step(m, line).1 != Some(EventModel::Schedule),
{
}

} // verus!
