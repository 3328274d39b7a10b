//! Request/response correlation over one connection to the worker.
//!
//! The channel hands out strictly increasing correlation identifiers, lets at
//! most one request await its response, and decides for every incoming
//! message whether it answers that request or is dropped. It moves no bytes
//! itself: the embedding program sends what `send` returns and reports what
//! arrives, a timeout, or the loss of the connection.

use crate::errors::ChannelError;
use crate::framing::{encode_frame, spec_frame};
use crate::messages::{Request, Response, ResponseView};
use crate::protocol::{
    decode_response, encode_request, peek_correlation_id, request_fits, spec_decode_response,
    spec_encode_request, spec_peek_id,
};
use vstd::prelude::*;

verus! {

/// The first identifier a channel hands out.
pub const FIRST_CORRELATION_ID: u64 = 1;

/// Mathematical state of a channel.
pub struct ChannelModel {
    /// The identifier the next request will get. All smaller ones are spent.
    pub next_id: u64,
    /// The request that awaits its response, if any.
    pub awaiting: Option<u64>,
    /// Whether the connection to the worker stands.
    pub connected: bool,
}

/// What the channel makes of a report, as a mathematical value.
pub enum DeliveryView {
    Discarded,
    Delivered { id: u64, response: ResponseView },
    Malformed { id: u64 },
    Failed { id: u64, error: ChannelError },
}

impl ChannelModel {
    /// An awaited request was issued by this channel over a standing
    /// connection.
    pub open spec fn wf(self) -> bool {
        &&& self.next_id >= FIRST_CORRELATION_ID
        &&& self.awaiting matches Some(id) ==> FIRST_CORRELATION_ID <= id < self.next_id
            && self.connected
    }

    /// The state of a channel over a connection that was just made.
    pub open spec fn fresh() -> ChannelModel {
        ChannelModel { next_id: FIRST_CORRELATION_ID, awaiting: None, connected: true }
    }

    /// The outcome of asking for a new request: the identifier it gets, or
    /// why none is given.
    pub open spec fn send_result(self) -> Result<u64, ChannelError> {
        if !self.connected {
            Err(ChannelError::Disconnected)
        } else if self.awaiting is Some {
            Err(ChannelError::Busy)
        } else if self.next_id == u64::MAX {
            Err(ChannelError::Disconnected)
        } else {
            Ok(self.next_id)
        }
    }

    /// The state after asking for a new request. A refusal changes nothing,
    /// except that a channel whose identifiers are used up closes.
    pub open spec fn after_send(self) -> ChannelModel {
        match self.send_result() {
            Ok(id) => ChannelModel {
                next_id: (id + 1) as u64,
                awaiting: Some(id),
                connected: true,
            },
            Err(_) => if self.connected && self.awaiting is None {
                ChannelModel { connected: false, ..self }
            } else {
                self
            },
        }
    }

    /// What an incoming message is taken for.
    pub open spec fn delivery(self, payload: Seq<u8>) -> DeliveryView {
        match self.awaiting {
            None => DeliveryView::Discarded,
            Some(awaited) => match spec_peek_id(payload) {
                None => DeliveryView::Malformed { id: awaited },
                Some(id) => if id != awaited {
                    DeliveryView::Discarded
                } else {
                    match spec_decode_response(payload) {
                        Some((_, response)) => DeliveryView::Delivered { id, response },
                        None => DeliveryView::Malformed { id },
                    }
                },
            },
        }
    }

    /// The state after an incoming message: a dropped message changes
    /// nothing; any other ends the wait.
    pub open spec fn after_frame(self, payload: Seq<u8>) -> ChannelModel {
        match self.delivery(payload) {
            DeliveryView::Discarded => self,
            _ => ChannelModel { awaiting: None, ..self },
        }
    }

    /// Whether a timeout reported for `id` ends the wait for it.
    pub open spec fn times_out(self, id: u64) -> bool {
        self.awaiting == Some(id)
    }

    /// What a timeout reported for `id` means: the awaited request fails
    /// with `Timeout`; a timeout for any other request means nothing.
    pub open spec fn timeout_delivery(self, id: u64) -> DeliveryView {
        if self.times_out(id) {
            DeliveryView::Failed { id, error: ChannelError::Timeout }
        } else {
            DeliveryView::Discarded
        }
    }

    /// What the loss of the connection means: the awaited request, if there
    /// is one, fails with `Disconnected`.
    pub open spec fn disconnect_delivery(self) -> DeliveryView {
        match self.awaiting {
            Some(id) => DeliveryView::Failed { id, error: ChannelError::Disconnected },
            None => DeliveryView::Discarded,
        }
    }

    /// The state after a timeout reported for `id`: the request, if it is
    /// the awaited one, is abandoned.
    pub open spec fn after_timeout(self, id: u64) -> ChannelModel {
        if self.times_out(id) {
            ChannelModel { awaiting: None, ..self }
        } else {
            self
        }
    }

    /// The state after the connection is lost.
    pub open spec fn after_disconnect(self) -> ChannelModel {
        ChannelModel { awaiting: None, connected: false, ..self }
    }
}

/// Model of an [`Outgoing`].
pub struct OutgoingView {
    pub id: u64,
    pub frame: Seq<u8>,
}

/// A request ready to be written to the worker.
#[derive(Debug, PartialEq, Eq)]
pub struct Outgoing {
    /// The identifier the response will carry.
    pub id: u64,
    /// The framed, encoded request.
    pub frame: Vec<u8>,
}

impl View for Outgoing {
    type V = OutgoingView;

    open spec fn view(&self) -> OutgoingView {
        OutgoingView { id: self.id, frame: self.frame@ }
    }
}

/// What the channel makes of a report: what became of the awaited request.
#[derive(Debug, PartialEq, Eq)]
pub enum Delivery {
    /// Nothing: the report concerns no awaited request. A message is
    /// dropped.
    Discarded,
    /// The message is the response to the awaited request.
    Delivered { id: u64, response: Response },
    /// The message arrived for the awaited request and could not be decoded.
    Malformed { id: u64 },
    /// The awaited request failed: no response will be delivered for it.
    Failed { id: u64, error: ChannelError },
}

impl View for Delivery {
    type V = DeliveryView;

    open spec fn view(&self) -> DeliveryView {
        match self {
            Delivery::Discarded => DeliveryView::Discarded,
            Delivery::Delivered { id, response } => DeliveryView::Delivered {
                id: *id,
                response: response@,
            },
            Delivery::Malformed { id } => DeliveryView::Malformed { id: *id },
            Delivery::Failed { id, error } => DeliveryView::Failed { id: *id, error: *error },
        }
    }
}

/// One connection's worth of correlation state.
#[derive(Debug)]
pub struct Channel {
    next_id: u64,
    awaiting: Option<u64>,
    connected: bool,
}

impl View for Channel {
    type V = ChannelModel;

    closed spec fn view(&self) -> ChannelModel {
        ChannelModel { next_id: self.next_id, awaiting: self.awaiting, connected: self.connected }
    }
}

impl Channel {
    #[verifier::type_invariant]
    spec fn inv(self) -> bool {
        self@.wf()
    }

    /// A channel over a connection that was just made.
    pub fn new() -> (r: Self)
        ensures
            r@ == ChannelModel::fresh(),
            r@.wf(),
    {
        Channel { next_id: FIRST_CORRELATION_ID, awaiting: None, connected: true }
    }

    /// Whether the connection stands.
    pub fn is_connected(&self) -> (r: bool)
        ensures
            r == self@.connected,
    {
        self.connected
    }

    /// The identifier of the request that awaits its response. It is one
    /// that this channel handed out.
    pub fn awaiting(&self) -> (r: Option<u64>)
        ensures
            r == self@.awaiting,
            self@.wf(),
    {
        proof {
            use_type_invariant(self);
        }
        self.awaiting
    }

    /// The identifier that the next request will get.
    pub fn next_id(&self) -> (r: u64)
        ensures
            r == self@.next_id,
    {
        self.next_id
    }

    /// Gives the request the next identifier and returns it framed for
    /// sending. Refuses when the connection is lost or another request still
    /// awaits its response.
    pub fn send(&mut self, request: &Request) -> (r: Result<Outgoing, ChannelError>)
        ensures
            final(self)@ == old(self)@.after_send(),
            final(self)@.wf(),
            match r {
                Ok(out) => {
                    &&& old(self)@.send_result() == Ok::<u64, ChannelError>(out.id)
                    &&& out.frame@ == spec_frame(spec_encode_request(out.id, request@))
                    &&& request_fits(request@)
                },
                Err(e) => old(self)@.send_result() == Err::<u64, ChannelError>(e),
            },
    {
        proof {
            use_type_invariant(&*self);
        }
        if !self.connected {
            return Err(ChannelError::Disconnected);
        }
        if self.awaiting.is_some() {
            return Err(ChannelError::Busy);
        }
        if self.next_id == u64::MAX {
            self.connected = false;
            return Err(ChannelError::Disconnected);
        }
        let id: u64 = self.next_id;
        let payload = encode_request(id, request);
        let frame = encode_frame(payload.as_slice());
        self.next_id = id + 1;
        self.awaiting = Some(id);
        Ok(Outgoing { id, frame })
    }

    /// Takes in the payload of one frame from the worker. A message for any
    /// request but the awaited one is dropped and leaves the channel as it
    /// was.
    pub fn on_frame(&mut self, payload: &[u8]) -> (r: Delivery)
        ensures
            r@ == old(self)@.delivery(payload@),
            final(self)@ == old(self)@.after_frame(payload@),
            final(self)@.wf(),
    {
        proof {
            use_type_invariant(&*self);
        }
        let awaited: u64 = match self.awaiting {
            None => { return Delivery::Discarded; },
            Some(a) => a,
        };
        let id: u64 = match peek_correlation_id(payload) {
            None => {
                self.awaiting = None;
                return Delivery::Malformed { id: awaited };
            },
            Some(id) => id,
        };
        if id != awaited {
            return Delivery::Discarded;
        }
        self.awaiting = None;
        match decode_response(payload) {
            Ok((_, response)) => Delivery::Delivered { id, response },
            Err(_) => Delivery::Malformed { id },
        }
    }

    /// Reports that no response came in time for request `id`. If that is
    /// the awaited request it fails with `Timeout` and is abandoned: a
    /// response that still arrives for it will be dropped. A timeout for
    /// any other request is ignored.
    pub fn on_timeout(&mut self, id: u64) -> (r: Delivery)
        ensures
            r@ == old(self)@.timeout_delivery(id),
            final(self)@ == old(self)@.after_timeout(id),
            final(self)@.wf(),
    {
        proof {
            use_type_invariant(&*self);
        }
        match self.awaiting {
            Some(a) => {
                if a == id {
                    self.awaiting = None;
                    Delivery::Failed { id, error: ChannelError::Timeout }
                } else {
                    Delivery::Discarded
                }
            },
            None => Delivery::Discarded,
        }
    }

    /// Reports that the connection is lost. The awaited request, if there
    /// is one, fails with `Disconnected`, and no request is accepted any
    /// more.
    pub fn on_disconnect(&mut self) -> (r: Delivery)
        ensures
            r@ == old(self)@.disconnect_delivery(),
            final(self)@ == old(self)@.after_disconnect(),
            final(self)@.wf(),
    {
        proof {
            use_type_invariant(&*self);
        }
        let was = self.awaiting;
        self.awaiting = None;
        self.connected = false;
        match was {
            Some(id) => Delivery::Failed { id, error: ChannelError::Disconnected },
            None => Delivery::Discarded,
        }
    }
}

/// Every transition of a channel keeps its state well formed.
pub proof fn lemma_channel_transitions_keep_wf(c: ChannelModel, payload: Seq<u8>, id: u64)
    requires
        c.wf(),
    ensures
        ChannelModel::fresh().wf(),
        c.after_send().wf(),
        c.after_frame(payload).wf(),
        c.after_timeout(id).wf(),
        c.after_disconnect().wf(),
{
}

/// Identifiers are strictly increasing: a request gets an identifier above
/// every one handed out before, and no transition ever lowers the next one.
pub proof fn lemma_identifiers_increase(c: ChannelModel, payload: Seq<u8>, id: u64)
    requires
        c.wf(),
    ensures
        c.send_result() matches Ok(issued) ==> issued == c.next_id && c.after_send().next_id
            > issued,
        c.after_send().next_id >= c.next_id,
        c.after_frame(payload).next_id == c.next_id,
        c.after_timeout(id).next_id == c.next_id,
        c.after_disconnect().next_id == c.next_id,
{
}

/// A message whose identifier is not the awaited one is dropped, and the
/// channel is exactly as if it had never arrived: whatever is sent, received
/// or reported afterwards has the same effect.
pub proof fn lemma_unmatched_response_is_inert(c: ChannelModel, payload: Seq<u8>)
    requires
        c.wf(),
        spec_peek_id(payload) matches Some(id) && c.awaiting != Some(id),
    ensures
        c.delivery(payload) == DeliveryView::Discarded,
        c.after_frame(payload) == c,
{
}

/// A request ends at most once: after a message, a timeout or the loss of
/// the connection has ended the wait, the same report again means nothing.
pub proof fn lemma_response_consumed_once(c: ChannelModel, payload: Seq<u8>, id: u64)
    requires
        c.wf(),
    ensures
        c.after_frame(payload).delivery(payload) == DeliveryView::Discarded,
        c.after_timeout(id).timeout_delivery(id) == DeliveryView::Discarded,
        c.after_disconnect().disconnect_delivery() == DeliveryView::Discarded,
{
}

/// After a timeout the abandoned request's response is dropped, also when
/// the next request is already awaiting its own.
pub proof fn lemma_late_response_is_dropped(c: ChannelModel, id: u64, payload: Seq<u8>)
    requires
        c.wf(),
        c.times_out(id),
        spec_peek_id(payload) == Some(id),
    ensures
        c.after_timeout(id).delivery(payload) == DeliveryView::Discarded,
        c.after_timeout(id).after_send().delivery(payload) == DeliveryView::Discarded,
        c.after_timeout(id).after_send().after_frame(payload) == c.after_timeout(id).after_send(),
{
}

/// Once the connection is lost, the awaited request is gone, no request is
/// accepted any more, and nothing that arrives or is reported revives the
/// channel.
pub proof fn lemma_disconnected_stays_dead(c: ChannelModel, payload: Seq<u8>, id: u64)
    requires
        c.wf(),
    ensures
        c.after_disconnect().awaiting is None,
        c.after_disconnect().send_result() == Err::<u64, ChannelError>(ChannelError::Disconnected),
        c.after_disconnect().after_send() == c.after_disconnect(),
        c.after_disconnect().after_frame(payload) == c.after_disconnect(),
        c.after_disconnect().after_timeout(id) == c.after_disconnect(),
        c.after_disconnect().after_disconnect() == c.after_disconnect(),
{
}

} // verus!
