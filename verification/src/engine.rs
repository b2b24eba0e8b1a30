//! The decision core of the dispatch engine: the per-datagram pipeline
//! (parse, decode, or drop silently), the per-reply pipeline (encode or
//! report), the bounded in-flight bookkeeping, the cancellation flag,
//! and the policy-driven outcome of a failed send. The asynchronous
//! loop that owns the socket performs these decisions' actions and is
//! not part of this library.

use crate::codec;
use crate::errors::EncodeError;
use crate::pkt::{PacketView, RadiusData};
use vstd::prelude::*;

verus! {

/// A peer's socket address held as plain values: the address bytes (4
/// for IPv4, 16 for IPv6) and the port.
#[derive(PartialEq, Debug)]
pub struct SocketAddress {
    pub ip: Vec<u8>,
    pub port: u16,
}

/// The mathematical shape of a socket address.
#[verifier::ext_equal]
pub struct SocketAddressView {
    pub ip: Seq<u8>,
    pub port: u16,
}

impl View for SocketAddress {
    type V = SocketAddressView;

    open spec fn view(&self) -> SocketAddressView {
        SocketAddressView { ip: self.ip@, port: self.port }
    }
}

impl Clone for SocketAddress {
    /// Cloning keeps the address bytes and the port.
    fn clone(&self) -> (res: Self)
        ensures
            res@ == self@,
    {
        SocketAddress { ip: crate::util::clone_bytes(&self.ip), port: self.port }
    }
}

/// One unit of traffic: a decoded request on receipt, or a reply built
/// by a handler, together with the peer it came from or goes to.
#[derive(PartialEq, Debug)]
pub struct RadiusMessage {
    pub addr: SocketAddress,
    pub data: RadiusData,
}

/// The mathematical shape of one unit of traffic.
#[verifier::ext_equal]
pub struct MessageView {
    pub addr: SocketAddressView,
    pub data: PacketView,
}

impl View for RadiusMessage {
    type V = MessageView;

    open spec fn view(&self) -> MessageView {
        MessageView { addr: self.addr@, data: self.data@ }
    }
}

impl Clone for RadiusMessage {
    /// Cloning keeps the peer and the packet.
    fn clone(&self) -> (res: Self)
        ensures
            res@ == self@,
    {
        RadiusMessage { addr: self.addr.clone(), data: self.data.clone() }
    }
}

/// What the failure policy decides when a reply cannot be written:
/// discard that one reply and keep serving, or stop the server.
#[derive(Clone, Copy, PartialEq, Eq, Structural, Debug)]
pub enum SendErrorOutcome {
    Drop,
    Stop,
}

/// Whether a loop of the engine goes on or terminates.
#[derive(Clone, Copy, PartialEq, Eq, Structural, Debug)]
pub enum LoopDecision {
    Continue,
    Stop,
}

/// The pluggable failure policy, supplied by the application. Neither
/// hook may panic; `on_handler_error` only observes, `on_send_error`
/// chooses between dropping one reply and stopping the server.
pub trait ErrorHandler {
    fn on_handler_error(&self, m: &str);

    fn on_send_error(&self, msg: RadiusMessage, e: Option<String>) -> SendErrorOutcome;
}

/// The default failure policy: ignore handler errors, drop undeliverable
/// replies, keep serving.
pub struct DummyErrorHandler;

impl ErrorHandler for DummyErrorHandler {
    fn on_handler_error(&self, _m: &str) {
    }

    fn on_send_error(&self, _msg: RadiusMessage, _e: Option<String>) -> (r: SendErrorOutcome)
        ensures
            r == SendErrorOutcome::Drop,
    {
        SendErrorOutcome::Drop
    }
}

/// The per-datagram pipeline: a datagram that parses and decodes
/// becomes a message for the handler; any malformed datagram is dropped
/// silently, never an error and never a crash.
pub fn process_datagram(bytes: &Vec<u8>, addr: SocketAddress) -> (r: Option<RadiusMessage>)
    ensures
        (codec::spec_parse(bytes@) matches Ok(tv) && codec::spec_decode(tv) is Ok) <==> (r
            is Some),
        r matches Some(m) ==> {
            &&& codec::spec_parse(bytes@) matches Ok(tv)
            &&& codec::spec_decode(tv) matches Ok(pv)
            &&& m@.data == pv
            &&& m@.addr == addr@
        },
{
    match codec::parse(bytes) {
        Ok(t) => match codec::decode(t) {
            Ok(data) => Some(RadiusMessage { addr, data }),
            Err(_) => None,
        },
        Err(_) => None,
    }
}

/// The per-reply pipeline: the wire bytes of one reply, or the size or
/// range violation that stops exactly this reply from being sent.
pub fn encode_reply(m: &RadiusMessage) -> (r: Result<Vec<u8>, EncodeError>)
    ensures
        codec::spec_packet_encodable(m@.data) ==> (r matches Ok(w) && w@
            == codec::spec_packet_bytes(m@.data)),
        !codec::spec_packet_encodable(m@.data) ==> (r matches Err(e) && e
            == codec::spec_encode_err(m@.data)),
{
    codec::encode(&m.data)
}

/// The dispatch engine's bookkeeping: how many handler invocations are
/// in flight against the configured bound, whether cancellation was
/// requested, and whether the failure policy stopped the reply loop.
#[derive(Clone, Copy, PartialEq, Eq, Structural, Debug)]
pub struct EngineState {
    pub max_in_flight: usize,
    pub in_flight: usize,
    pub cancelled: bool,
    pub stopped: bool,
}

impl EngineState {
    /// The in-flight count never exceeds the bound, which is positive.
    pub open spec fn wf(self) -> bool {
        self.in_flight <= self.max_in_flight && self.max_in_flight >= 1
    }

    /// A fresh engine: nothing in flight, not cancelled, not stopped.
    pub fn new(max_in_flight: usize) -> (s: Self)
        requires
            max_in_flight >= 1,
        ensures
            s.wf(),
            s.max_in_flight == max_in_flight,
            s.in_flight == 0,
            !s.cancelled,
            !s.stopped,
    {
        EngineState { max_in_flight, in_flight: 0, cancelled: false, stopped: false }
    }

    /// Whether a new datagram may be dispatched: only below the
    /// in-flight bound, and never after cancellation or a stop.
    pub fn can_accept(&self) -> (r: bool)
        ensures
            r == (self.in_flight < self.max_in_flight && !self.cancelled && !self.stopped),
    {
        self.in_flight < self.max_in_flight && !self.cancelled && !self.stopped
    }

    /// Dispatching one datagram takes one in-flight slot; nothing else
    /// changes.
    pub fn start_request(&mut self)
        requires
            old(self).wf(),
            old(self).in_flight < old(self).max_in_flight,
        ensures
            final(self).wf(),
            final(self).in_flight == old(self).in_flight + 1,
            final(self).max_in_flight == old(self).max_in_flight,
            final(self).cancelled == old(self).cancelled,
            final(self).stopped == old(self).stopped,
    {
        self.in_flight = self.in_flight + 1;
    }

    /// A handler that finishes, with or without replies, frees its
    /// slot; nothing else changes.
    pub fn finish_request(&mut self)
        requires
            old(self).wf(),
            old(self).in_flight > 0,
        ensures
            final(self).wf(),
            final(self).in_flight == old(self).in_flight - 1,
            final(self).max_in_flight == old(self).max_in_flight,
            final(self).cancelled == old(self).cancelled,
            final(self).stopped == old(self).stopped,
    {
        self.in_flight = self.in_flight - 1;
    }

    /// Observing the cancellation signal is permanent: from here on no
    /// new datagram is accepted, while in-flight work may finish.
    pub fn cancel(&mut self)
        ensures
            final(self).cancelled,
            final(self).in_flight == old(self).in_flight,
            final(self).max_in_flight == old(self).max_in_flight,
            final(self).stopped == old(self).stopped,
    {
        self.cancelled = true;
    }

    /// Applies the failure policy's verdict on one undeliverable reply:
    /// `Drop` keeps the reply loop running, `Stop` terminates it, and a
    /// stop is permanent.
    pub fn on_send_result(&mut self, outcome: SendErrorOutcome) -> (d: LoopDecision)
        ensures
            final(self).stopped == (old(self).stopped || outcome == SendErrorOutcome::Stop),
            (d == LoopDecision::Stop) == (outcome == SendErrorOutcome::Stop),
            final(self).in_flight == old(self).in_flight,
            final(self).max_in_flight == old(self).max_in_flight,
            final(self).cancelled == old(self).cancelled,
    {
        match outcome {
            SendErrorOutcome::Drop => LoopDecision::Continue,
            SendErrorOutcome::Stop => {
                self.stopped = true;
                LoopDecision::Stop
            },
        }
    }
}

} // verus!
