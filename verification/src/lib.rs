//! Embedding of a remote terminal multiplexer's control-mode session as a
//! "domain" of the local multiplexer.
//!
//! The control protocol is line oriented: the remote peer sends LF-terminated
//! lines (optionally CR-terminated before the LF) over an existing terminal
//! channel.  A resynchronizing byte-to-line decoder turns the byte stream into
//! decoded lines, a protocol state machine classifies each line as a
//! reply-block delimiter, a notification, or payload, and a domain controller
//! composes the two and queues outgoing commands for the single thread that
//! owns the channel.  A separate entity mapper reconciles completed
//! window-listing replies against the locally known proxy surfaces.

mod controller;
mod decoder;
mod geometry;
mod ids;
mod mapper;
mod protocol;
mod text;

pub use decoder::LineDecoder;
pub use decoder::feed_buf;
pub use decoder::feed_lines;
pub use decoder::strip_cr;
pub use decoder::lemma_feed_chunking;
pub use decoder::LINE_FEED;
pub use decoder::CARRIAGE_RETURN;

pub use controller::CommandModel;
pub use controller::DomainError;
pub use controller::DomainState;
pub use controller::PendingCommand;
pub use controller::PtySize;
pub use controller::TmuxDomain;
pub use controller::line_effect;
pub use controller::list_windows_cmd;
pub use controller::list_windows_command;

pub use mapper::EntityMapper;
pub use mapper::ProxyModel;
pub use mapper::RemoteWindowDescriptor;
pub use mapper::TabProxy;
pub use mapper::WindowModel;
pub use mapper::distinct_windows;
pub use mapper::listing_has;
pub use mapper::opt_window_model;
pub use mapper::parse_listing;
pub use mapper::parse_listing_spec;
pub use mapper::parse_window_line;
pub use mapper::parse_window_line_spec;
pub use mapper::proxies_have;

pub use protocol::BlockModel;
pub use protocol::Event;
pub use protocol::EventModel;
pub use protocol::LineClass;
pub use protocol::MachineModel;
pub use protocol::OpenBlock;
pub use protocol::OpenBlockModel;
pub use protocol::ProtocolState;
pub use protocol::ReplyBlock;
pub use protocol::StateMachine;
pub use protocol::begin_marker;
pub use protocol::classify;
pub use protocol::classify_spec;
pub use protocol::end_marker;
pub use protocol::error_marker;
pub use protocol::lemma_transition_exactly_once;
pub use protocol::machine_step;
pub use protocol::opt_event_model;

pub use text::has_prefix;
pub use text::starts_with_chars;
pub use text::marker_seq_spec;
pub use text::marker_seq_exec;
pub use text::lossy_of;
pub use text::parse_u64;
pub use text::parse_u64_spec;
pub use text::find_char;
pub use text::first_at;
pub use text::digits_value;
pub use text::all_digits;
pub use text::is_digit;
pub use text::digit_val;
pub use text::lemma_first_at_bounds;

pub use geometry::Rect;
pub use geometry::lemma_intersects_is_interval_overlap;
pub use geometry::value_in_range;
pub use geometry::value_in_range_spec;

pub use ids::DomainId;
pub use ids::IdAllocator;
pub use ids::TabId;
pub use ids::WindowId;
pub use ids::lemma_allocations_distinct;
