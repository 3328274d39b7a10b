//! Failure kinds and their translation into what the host understands.

use vstd::prelude::*;

verus! {

/// Why a byte string could not be read as a wire value.
#[derive(Clone, Copy, Debug, PartialEq, Eq, Structural)]
pub enum DecodeError {
    /// A tag, length prefix or text field is not well formed, or bytes are
    /// left over after the value.
    Malformed,
}

/// Why the channel could not deliver a response.
#[derive(Clone, Copy, Debug, PartialEq, Eq, Structural)]
pub enum ChannelError {
    /// No matching response arrived in time; the request was abandoned.
    Timeout,
    /// The transport to the worker is severed.
    Disconnected,
    /// Another request is still awaiting its response.
    Busy,
}

/// Mathematical model of an [`ExecutionError`].
pub enum ExecutionErrorView {
    ProtocolViolation,
    Unavailable,
    Application { code: u32, message: Seq<char> },
    SupervisorFatal,
}

/// The closed set of failures the host can observe.
#[derive(Debug, PartialEq, Eq)]
pub enum ExecutionError {
    /// The worker sent data that does not follow the wire format.
    ProtocolViolation,
    /// The worker could not be reached or did not answer in time.
    Unavailable,
    /// The worker reported a failure of the service logic itself. The code is
    /// deterministic; the message is advisory.
    Application { code: u32, message: String },
    /// The restart budget is spent; an operator has to step in.
    SupervisorFatal,
}

impl View for ExecutionError {
    type V = ExecutionErrorView;

    open spec fn view(&self) -> ExecutionErrorView {
        match self {
            ExecutionError::ProtocolViolation => ExecutionErrorView::ProtocolViolation,
            ExecutionError::Unavailable => ExecutionErrorView::Unavailable,
            ExecutionError::Application { code, message } => ExecutionErrorView::Application {
                code: *code,
                message: message@,
            },
            ExecutionError::SupervisorFatal => ExecutionErrorView::SupervisorFatal,
        }
    }
}

impl Clone for ExecutionError {
    fn clone(&self) -> (r: Self)
        ensures
            r@ == self@,
    {
        match self {
            ExecutionError::ProtocolViolation => ExecutionError::ProtocolViolation,
            ExecutionError::Unavailable => ExecutionError::Unavailable,
            ExecutionError::Application { code, message } => ExecutionError::Application {
                code: *code,
                message: message.clone(),
            },
            ExecutionError::SupervisorFatal => ExecutionError::SupervisorFatal,
        }
    }
}

/// What a channel failure means to the host: the worker is unavailable,
/// whatever the cause.
pub open spec fn spec_translate_channel_error(e: ChannelError) -> ExecutionErrorView {
    ExecutionErrorView::Unavailable
}

/// What a decode failure means to the host: the protocol was violated.
pub open spec fn spec_translate_decode_error(e: DecodeError) -> ExecutionErrorView {
    ExecutionErrorView::ProtocolViolation
}

/// Whether a failure stems from the service logic alone, so that every node
/// observes it alike and it may enter replicated state.
pub open spec fn spec_is_deterministic(e: ExecutionErrorView) -> bool {
    e is Application
}

/// Maps a channel failure to the host's taxonomy.
pub fn translate_channel_error(e: ChannelError) -> (r: ExecutionError)
    ensures
        r@ == spec_translate_channel_error(e),
        r@ == ExecutionErrorView::Unavailable,
{
    match e {
        ChannelError::Timeout => ExecutionError::Unavailable,
        ChannelError::Disconnected => ExecutionError::Unavailable,
        ChannelError::Busy => ExecutionError::Unavailable,
    }
}

/// Maps a decode failure to the host's taxonomy.
pub fn translate_decode_error(e: DecodeError) -> (r: ExecutionError)
    ensures
        r@ == spec_translate_decode_error(e),
        r@ == ExecutionErrorView::ProtocolViolation,
{
    match e {
        DecodeError::Malformed => ExecutionError::ProtocolViolation,
    }
}

/// Maps a failure reported by the worker to the host's taxonomy, keeping the
/// code and the message as they came.
pub fn translate_worker_failure(code: u32, message: String) -> (r: ExecutionError)
    ensures
        r@ == (ExecutionErrorView::Application { code, message: message@ }),
{
    ExecutionError::Application { code, message }
}

impl ExecutionError {
    /// True for failures that may be committed into replicated state; false
    /// for those that must abort the block being processed.
    pub fn is_deterministic(&self) -> (r: bool)
        ensures
            r == spec_is_deterministic(self@),
    {
        match self {
            ExecutionError::Application { .. } => true,
            _ => false,
        }
    }

    /// True for failures that must abort the block being processed.
    pub fn aborts_block(&self) -> (r: bool)
        ensures
            r == !spec_is_deterministic(self@),
    {
        !self.is_deterministic()
    }
}

/// No channel or decode failure is ever translated into a failure that may be
/// committed: both always abort the block.
pub proof fn lemma_transport_failures_abort(c: ChannelError, d: DecodeError)
    ensures
        !spec_is_deterministic(spec_translate_channel_error(c)),
        !spec_is_deterministic(spec_translate_decode_error(d)),
{
}

} // verus!
