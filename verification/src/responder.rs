//! The responder: the worker that empties a queue of blob batches onto the
//! network, one batch for each receive.

use vstd::prelude::*;

verus! {

/// What the responder's worker reports.
#[derive(Debug, PartialEq, Eq)]
pub enum ResponderEvent<B> {
    /// The receive yielded a batch of blobs.
    Received(Vec<B>),
    /// The receive timed out.
    Empty,
    /// The queue's producer is gone.
    Closed,
    /// The batch was written to the socket.
    Transmitted,
    /// Writing the batch to the socket failed.
    TransmitFailed,
}

/// What the responder's worker does next.
#[derive(Debug, PartialEq, Eq)]
pub enum ResponderAction<B> {
    /// Wait on the queue.
    Receive,
    /// Write this batch to the socket.
    Transmit(Vec<B>),
    /// End the worker's thread.
    Exit,
}

/// An event with its payload as a sequence.
#[verifier::ext_equal]
pub enum ResponderEventView<B> {
    Received(Seq<B>),
    Empty,
    Closed,
    Transmitted,
    TransmitFailed,
}

/// An action with its payload as a sequence.
#[verifier::ext_equal]
pub enum ResponderActionView<B> {
    Receive,
    Transmit(Seq<B>),
    Exit,
}

impl<B> View for ResponderEvent<B> {
    type V = ResponderEventView<B>;

    open spec fn view(&self) -> ResponderEventView<B> {
        match *self {
            ResponderEvent::Received(batch) => ResponderEventView::Received(batch@),
            ResponderEvent::Empty => ResponderEventView::Empty,
            ResponderEvent::Closed => ResponderEventView::Closed,
            ResponderEvent::Transmitted => ResponderEventView::Transmitted,
            ResponderEvent::TransmitFailed => ResponderEventView::TransmitFailed,
        }
    }
}

impl<B> View for ResponderAction<B> {
    type V = ResponderActionView<B>;

    open spec fn view(&self) -> ResponderActionView<B> {
        match *self {
            ResponderAction::Receive => ResponderActionView::Receive,
            ResponderAction::Transmit(batch) => ResponderActionView::Transmit(batch@),
            ResponderAction::Exit => ResponderActionView::Exit,
        }
    }
}

/// What follows each event: a batch received is transmitted as it is; the
/// worker ends when the queue is closed; after anything else, a failed
/// transmission too, it receives again. A failed transmission is not tried
/// again.
pub open spec fn responder_next<B>(event: ResponderEventView<B>) -> ResponderActionView<B> {
    match event {
        ResponderEventView::Received(batch) => ResponderActionView::Transmit(batch),
        ResponderEventView::Closed => ResponderActionView::Exit,
        ResponderEventView::Empty
        | ResponderEventView::Transmitted
        | ResponderEventView::TransmitFailed => ResponderActionView::Receive,
    }
}

/// Says what the responder's worker does after `event`.
pub fn respond<B>(event: ResponderEvent<B>) -> (action: ResponderAction<B>)
    ensures
        action@ == responder_next(event@),
{
    match event {
        ResponderEvent::Received(batch) => ResponderAction::Transmit(batch),
        ResponderEvent::Closed => ResponderAction::Exit,
        ResponderEvent::Empty
        | ResponderEvent::Transmitted
        | ResponderEvent::TransmitFailed => ResponderAction::Receive,
    }
}

} // verus!
