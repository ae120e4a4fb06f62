//! The life of a chat session: `Handshaking`, `Active`, `Terminating`,
//! `Closed`.
//!
//! `step` takes the state and what happened, and gives the next state and
//! what is to be done. Whoever owns the stream and the terminal does it and
//! reports what happens next. A message with timestamp zero is the notice
//! that its sender ends the session; so is, for the local side, a message
//! whose contents are the quit command.

use crate::error::{ChatError, TransportError};
use crate::message::{Message, MessageView};
use vstd::prelude::*;
use vstd::string::StringExecFns;

verus! {

/// The contents with which the operator ends the session: `/quit`.
pub open spec fn quit_command() -> Seq<char> {
    seq!['/', 'q', 'u', 'i', 't']
}

/// The quit command as text.
pub fn quit_text() -> (text: String)
    ensures
        text@ == quit_command(),
{
    let text = String::from_str("/quit");
    proof {
        reveal_strlit("/quit");
        assert(text@ =~= quit_command());
    }
    text
}

/// How a session came to its end.
#[derive(Clone, Copy, Debug, PartialEq, Eq, Structural)]
pub enum Exit {
    /// One of the peers ended it.
    Ended,
    /// It broke.
    Failed(ChatError),
}

/// Where a session stands.
#[derive(Clone, Copy, Debug, PartialEq, Eq, Structural)]
pub enum RuntimeState {
    /// The keys are being exchanged.
    Handshaking,
    /// Messages go back and forth.
    Active,
    /// One of the peers has given notice; the stream is still open.
    Terminating,
    /// The stream is closed.
    Closed(Exit),
}

/// What happened.
pub enum RuntimeEvent {
    /// The handshake gave a session.
    Established,
    /// The operator submitted a message.
    Local(Message),
    /// A message of the peer was received.
    Received(Message),
    /// What the last `Send` asked for has been written.
    Sent,
    /// The handshake, a read or a write failed.
    Failed(ChatError),
    /// The stream has been closed.
    StreamClosed,
}

/// What happened, as plain mathematical data.
pub enum RuntimeEventView {
    Established,
    Local(MessageView),
    Received(MessageView),
    Sent,
    Failed(ChatError),
    StreamClosed,
}

impl View for RuntimeEvent {
    type V = RuntimeEventView;

    open spec fn view(&self) -> RuntimeEventView {
        match *self {
            RuntimeEvent::Established => RuntimeEventView::Established,
            RuntimeEvent::Local(message) => RuntimeEventView::Local(message@),
            RuntimeEvent::Received(message) => RuntimeEventView::Received(message@),
            RuntimeEvent::Sent => RuntimeEventView::Sent,
            RuntimeEvent::Failed(e) => RuntimeEventView::Failed(e),
            RuntimeEvent::StreamClosed => RuntimeEventView::StreamClosed,
        }
    }
}

/// What is to be done.
pub enum RuntimeAction {
    /// Nothing but to go on polling.
    Poll,
    /// Send this message to the peer, then report `Sent`.
    Send(Message),
    /// Show this message of the peer.
    Show(Message),
    /// Tell the operator that a frame of the peer was refused.
    Report(ChatError),
    /// Close the stream, then report `StreamClosed`.
    Close,
}

/// What is to be done, as plain mathematical data.
pub enum RuntimeActionView {
    Poll,
    Send(MessageView),
    Show(MessageView),
    Report(ChatError),
    Close,
}

impl View for RuntimeAction {
    type V = RuntimeActionView;

    open spec fn view(&self) -> RuntimeActionView {
        match *self {
            RuntimeAction::Poll => RuntimeActionView::Poll,
            RuntimeAction::Send(message) => RuntimeActionView::Send(message@),
            RuntimeAction::Show(message) => RuntimeActionView::Show(message@),
            RuntimeAction::Report(e) => RuntimeActionView::Report(e),
            RuntimeAction::Close => RuntimeActionView::Close,
        }
    }
}

/// The message gives notice that its sender ends the session.
pub open spec fn is_notice(message: MessageView) -> bool {
    message.timestamp == 0
}

/// With this message the operator ends the session.
pub open spec fn ends_session(message: MessageView) -> bool {
    is_notice(message) || message.contents == quit_command()
}

/// The notice that goes out for a message that ends the session: the
/// message with timestamp zero.
pub open spec fn notice_for(message: MessageView) -> MessageView {
    MessageView { timestamp: 0, ..message }
}

/// How a failure ends a session: the peer closing the stream between
/// frames is an orderly end, anything else is not.
pub open spec fn exit_for(e: ChatError) -> Exit {
    if e.is_orderly_close() {
        Exit::Ended
    } else {
        Exit::Failed(e)
    }
}

/// The state machine of a session.
///
/// * `Handshaking` becomes `Active` when the session is established. A
///   failure closes the session as failed, whatever the failure.
/// * In `Active`, a local message goes out and a received message is
///   shown. A local message that ends the session goes out as a notice, and
///   a received notice asks for no reply: either way the state becomes
///   `Terminating`. A failure of the transport closes the session; any
///   other failure concerns one frame, is reported, and changes nothing.
/// * In `Terminating`, the stream is closed once the notice is written, and
///   the state becomes `Closed` once the stream is closed. A failure closes
///   the session.
/// * `Closed` stays as it is.
///
/// An event that the state does not wait for is passed over.
pub open spec fn runtime_step(state: RuntimeState, event: RuntimeEventView) -> (
    RuntimeState,
    RuntimeActionView,
) {
    match (state, event) {
        (RuntimeState::Handshaking, RuntimeEventView::Established) => (
            RuntimeState::Active,
            RuntimeActionView::Poll,
        ),
        (RuntimeState::Handshaking, RuntimeEventView::Failed(e)) => (
            RuntimeState::Closed(Exit::Failed(e)),
            RuntimeActionView::Close,
        ),
        (RuntimeState::Active, RuntimeEventView::Local(message)) => if ends_session(message) {
            (RuntimeState::Terminating, RuntimeActionView::Send(notice_for(message)))
        } else {
            (RuntimeState::Active, RuntimeActionView::Send(message))
        },
        (RuntimeState::Active, RuntimeEventView::Received(message)) => if is_notice(message) {
            (RuntimeState::Terminating, RuntimeActionView::Close)
        } else {
            (RuntimeState::Active, RuntimeActionView::Show(message))
        },
        (RuntimeState::Active, RuntimeEventView::Failed(e)) => if e.is_terminal() {
            (RuntimeState::Closed(exit_for(e)), RuntimeActionView::Close)
        } else {
            (RuntimeState::Active, RuntimeActionView::Report(e))
        },
        (RuntimeState::Terminating, RuntimeEventView::Sent) => (
            RuntimeState::Terminating,
            RuntimeActionView::Close,
        ),
        (RuntimeState::Terminating, RuntimeEventView::StreamClosed) => (
            RuntimeState::Closed(Exit::Ended),
            RuntimeActionView::Poll,
        ),
        (RuntimeState::Terminating, RuntimeEventView::Failed(e)) => (
            RuntimeState::Closed(exit_for(e)),
            RuntimeActionView::Close,
        ),
        _ => (state, RuntimeActionView::Poll),
    }
}

/// A notice sent by one peer brings both ends to `Terminating`: the
/// sender's when it hands the message over, the receiver's when the notice
/// arrives, and the receiver is asked for no reply.
pub proof fn lemma_notice_terminates_both_ends(message: MessageView)
    requires
        is_notice(message),
    ensures
        runtime_step(RuntimeState::Active, RuntimeEventView::Local(message)) == (
            RuntimeState::Terminating,
            RuntimeActionView::Send(message),
        ),
        runtime_step(RuntimeState::Active, RuntimeEventView::Received(message)) == (
            RuntimeState::Terminating,
            RuntimeActionView::Close,
        ),
{
}

/// Whatever the operator ends the session with, what goes out is a notice.
pub proof fn lemma_ending_sends_notice(message: MessageView)
    requires
        ends_session(message),
    ensures
        runtime_step(RuntimeState::Active, RuntimeEventView::Local(message)) == (
            RuntimeState::Terminating,
            RuntimeActionView::Send(notice_for(message)),
        ),
        is_notice(notice_for(message)),
{
}

/// A closed session stays closed, and a failure that is not of the
/// transport leaves an active session active.
pub proof fn lemma_states_that_stay(state: RuntimeState, event: RuntimeEventView)
    ensures
        state is Closed ==> runtime_step(state, event).0 == state,
        state is Active && (event matches RuntimeEventView::Failed(e) && !e.is_terminal())
            ==> runtime_step(state, event).0 == state,
{
}

impl RuntimeState {
    /// The state of a session before the handshake.
    pub fn new() -> (state: RuntimeState)
        ensures
            state == RuntimeState::Handshaking,
    {
        RuntimeState::Handshaking
    }

    /// Takes what happened and says what is to be done.
    pub fn step(self, event: RuntimeEvent) -> (next: (RuntimeState, RuntimeAction))
        ensures
            (next.0, next.1@) == runtime_step(self, event@),
    {
        match (self, event) {
            (RuntimeState::Handshaking, RuntimeEvent::Established) => (
                RuntimeState::Active,
                RuntimeAction::Poll,
            ),
            (RuntimeState::Handshaking, RuntimeEvent::Failed(e)) => (
                RuntimeState::Closed(Exit::Failed(e)),
                RuntimeAction::Close,
            ),
            (RuntimeState::Active, RuntimeEvent::Local(message)) => {
                if message.is_termination() || message.contents == quit_text() {
                    let notice = Message {
                        sender_id: message.sender_id,
                        to_id: message.to_id,
                        contents: message.contents,
                        timestamp: 0,
                    };
                    (RuntimeState::Terminating, RuntimeAction::Send(notice))
                } else {
                    (RuntimeState::Active, RuntimeAction::Send(message))
                }
            },
            (RuntimeState::Active, RuntimeEvent::Received(message)) => {
                if message.is_termination() {
                    (RuntimeState::Terminating, RuntimeAction::Close)
                } else {
                    (RuntimeState::Active, RuntimeAction::Show(message))
                }
            },
            (RuntimeState::Active, RuntimeEvent::Failed(e)) => match e {
                ChatError::Transport(TransportError::Closed) => (
                    RuntimeState::Closed(Exit::Ended),
                    RuntimeAction::Close,
                ),
                ChatError::Transport(_) => (
                    RuntimeState::Closed(Exit::Failed(e)),
                    RuntimeAction::Close,
                ),
                _ => (RuntimeState::Active, RuntimeAction::Report(e)),
            },
            (RuntimeState::Terminating, RuntimeEvent::Sent) => (
                RuntimeState::Terminating,
                RuntimeAction::Close,
            ),
            (RuntimeState::Terminating, RuntimeEvent::StreamClosed) => (
                RuntimeState::Closed(Exit::Ended),
                RuntimeAction::Poll,
            ),
            (RuntimeState::Terminating, RuntimeEvent::Failed(e)) => match e {
                ChatError::Transport(TransportError::Closed) => (
                    RuntimeState::Closed(Exit::Ended),
                    RuntimeAction::Close,
                ),
                _ => (RuntimeState::Closed(Exit::Failed(e)), RuntimeAction::Close),
            },
            (state, _) => (state, RuntimeAction::Poll),
        }
    }

    /// Whether the session is over.
    pub fn is_closed(&self) -> (closed: bool)
        ensures
            closed == (*self is Closed),
    {
        match self {
            RuntimeState::Closed(_) => true,
            _ => false,
        }
    }
}

} // verus!
