use vstd::prelude::*;
use crate::dispatch::Directive;
use crate::error::ProtocolError;

verus! {

/// What woke a connection's driver loop: the first of its event sources to be ready.
#[derive(Debug, Clone, Copy, PartialEq, Eq, Structural)]
pub enum Wake {
    /// The transport reports that it is exhausted.
    TransportEnded,
    /// The periodic tick fired.
    Tick,
    /// An inbound message arrived.
    Received,
    /// The transport yielded an error or nothing instead of a message.
    ReceiveFailed,
    /// A message was taken from the connection's outbound queue.
    Queued,
    /// The outbound queue is closed.
    QueueClosed,
}

/// What the driver does about one wake-up.
#[derive(Debug, Clone, Copy, PartialEq, Eq, Structural)]
pub enum Step {
    /// Recompute the connection's audience.
    Reevaluate,
    /// Hand the message to the dispatcher.
    Dispatch,
    /// Write the queued message to the transport.
    Forward,
    /// Nothing to do; wait for the next event.
    Idle,
    /// Leave the loop and unregister the connection.
    Stop,
}

/// How the connection goes on once a directive of the dispatcher has been carried out.
#[derive(Debug, Clone, Copy, PartialEq, Eq, Structural)]
pub enum Flow {
    Continue,
    /// A normal end, such as a logout.
    Terminate(ProtocolError),
    /// An end by error.
    Fatal(ProtocolError),
}

/// The driver's decision for each wake-up.
pub open spec fn step_of(w: Wake) -> Step {
    match w {
        Wake::TransportEnded => Step::Stop,
        Wake::Tick => Step::Reevaluate,
        Wake::Received => Step::Dispatch,
        Wake::ReceiveFailed => Step::Idle,
        Wake::Queued => Step::Forward,
        Wake::QueueClosed => Step::Stop,
    }
}

/// Decides what the driver does about one wake-up.
pub fn driver_step(w: Wake) -> (r: Step)
    ensures
        r == step_of(w),
{
    match w {
        Wake::TransportEnded => Step::Stop,
        Wake::Tick => Step::Reevaluate,
        Wake::Received => Step::Dispatch,
        Wake::ReceiveFailed => Step::Idle,
        Wake::Queued => Step::Forward,
        Wake::QueueClosed => Step::Stop,
    }
}

/// How the connection goes on after `d` was carried out without a transport or store error:
/// a logout ends it normally, a rejected request ends it with its error, and
/// everything else lets it go on.
pub fn flow_after(d: &Directive) -> (r: Flow)
    ensures
        *d is Logout ==> r == Flow::Terminate(ProtocolError::LoggedOut),
        *d matches Directive::Fail(e) ==> r == Flow::Fatal(e),
        !(*d is Logout) && !(*d is Fail) ==> r == Flow::Continue,
{
    match d {
        Directive::Logout { .. } => Flow::Terminate(ProtocolError::LoggedOut),
        Directive::Fail(e) => Flow::Fatal(*e),
        _ => Flow::Continue,
    }
}

} // verus!
