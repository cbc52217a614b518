//! Per-connection session state and packet demultiplexing.
//!
//! A [`Display`] owns one connection and is driven by exactly one logical
//! thread of control.  The request-issuing side registers every request
//! whose outcome it wants to retrieve with [`Display::expect_reply`]; each
//! call of [`Display::wait`] then drains exactly one packet from the
//! connection and routes it: a reply is stored in the pending-replies map
//! under its widened sequence number, an error terminates the `wait` call
//! that read it, and an event is appended to the event queue in arrival
//! order.  One `wait` returning `Ok` does not mean any particular reply has
//! arrived — callers re-check the map for their own sequence number and call
//! `wait` again until it appears or an error ends the exchange.

use std::collections::HashMap;

use vstd::prelude::*;

use crate::codec::{
    additional_bytes, spec_discriminator, spec_packet_len, spec_u16, ByteOrder, TYPE_ERROR,
    TYPE_MASK, TYPE_REPLY,
};
use crate::protocol::{
    decode_error, decode_event, spec_error_of, spec_event_of, CoreError, CoreErrorV, Event, EventV,
};
use crate::sequence::{promote_sequence, spec_promote, SEQUENCE_LIMIT};
use crate::transport::{read_packet, Connection, Fd};

verus! {

broadcast use vstd::std_specs::hash::group_hash_axioms;

/// Caller-visible expectations recorded for an outstanding request.
#[derive(Clone, Copy, PartialEq, Eq, Structural, Debug)]
pub struct PendingRequestFlags {
    /// The request generates a reply the caller intends to retrieve.
    pub expects_reply: bool,
    /// An error answering the request may be dropped instead of surfaced.
    pub discard_on_error: bool,
}

/// One entry per outstanding request awaiting a reply or an error.  A
/// request may in general span a range of logical sequence numbers; this
/// core records the common case of a single number, so both bounds are equal
/// when an entry is made by [`Display::expect_reply`].
#[derive(Clone, Copy, PartialEq, Eq, Structural, Debug)]
pub struct PendingRequest {
    pub first_request: u64,
    pub last_request: u64,
    pub flags: PendingRequestFlags,
}

/// The mathematical demultiplexer state: the last issued logical sequence
/// number, the pending-replies map, and the event queue.
pub ghost struct DemuxState {
    pub last_sequence: u64,
    pub replies: Map<u64, Seq<u8>>,
    pub events: Seq<EventV>,
}

/// Whether `bytes` is one complete packet under `order`: the 32-byte base
/// unit is present and the total length is exactly what the header calls
/// for.
pub open spec fn complete_packet(bytes: Seq<u8>, order: ByteOrder) -> bool {
    bytes.len() >= 32 && bytes.len() == spec_packet_len(bytes, order)
}

/// The demultiplexer state after routing one completed packet.  Exactly one
/// thing happens per packet: a reply is inserted into the pending-replies
/// map under its promoted sequence number, an event is appended to the
/// queue, and an error (or a short buffer) leaves the state unchanged — the
/// refusal is reported by [`route_refusal`] instead.
pub open spec fn route(s: DemuxState, bytes: Seq<u8>, order: ByteOrder) -> DemuxState {
    if bytes.len() < 32 {
        s
    } else if spec_discriminator(bytes) == TYPE_ERROR {
        s
    } else if spec_discriminator(bytes) == TYPE_REPLY {
        DemuxState {
            replies: s.replies.insert(
                spec_promote(s.last_sequence, spec_u16(bytes[2], bytes[3], order)),
                bytes,
            ),
            ..s
        }
    } else {
        DemuxState { events: s.events.push(spec_event_of(bytes)), ..s }
    }
}

/// The failure routing one packet reports: a short buffer is malformed, an
/// error-classified packet is decoded and returned, anything else is
/// accepted.
pub open spec fn route_refusal(bytes: Seq<u8>, order: ByteOrder) -> Option<CoreErrorV> {
    if bytes.len() < 32 {
        Some(CoreErrorV::Malformed)
    } else if spec_discriminator(bytes) == TYPE_ERROR {
        Some(CoreErrorV::Protocol(spec_error_of(bytes, order)))
    } else {
        None
    }
}

/// The session state of one connection.
pub struct Display<C> {
    connection: C,
    byte_order: ByteOrder,
    last_sequence: u64,
    pending_requests: Vec<PendingRequest>,
    pending_replies: HashMap<u64, Vec<u8>>,
    event_queue: Vec<Event>,
    received_fds: Vec<Fd>,
}

impl<C> Display<C> {
    /// The mathematical demultiplexer state this session is in.
    pub closed spec fn demux(self) -> DemuxState {
        DemuxState {
            last_sequence: self.last_sequence,
            replies: self.pending_replies@.map_values(|v: Vec<u8>| v@),
            events: self.event_queue@.map_values(|e: Event| e@),
        }
    }

    /// The byte order the connection negotiated.
    pub closed spec fn order(self) -> ByteOrder {
        self.byte_order
    }

    /// The registered outstanding requests, in registration order.
    pub closed spec fn requests(self) -> Seq<PendingRequest> {
        self.pending_requests@
    }

    /// The ancillary descriptors received so far and not yet taken over by
    /// the event layer.
    pub closed spec fn fds(self) -> Seq<Fd> {
        self.received_fds@
    }

    /// Well-formedness: the logical sequence counter leaves room for one
    /// more 16-bit block, so widening stays defined.
    pub closed spec fn wf(self) -> bool {
        self.last_sequence <= SEQUENCE_LIMIT
    }

    /// Open a session over `connection`, whose negotiated byte order is
    /// `byte_order`.
    pub fn new(connection: C, byte_order: ByteOrder) -> (r: Display<C>)
        ensures
            r.wf(),
            r.order() == byte_order,
            r.demux() == (DemuxState {
                last_sequence: 0,
                replies: Map::<u64, Seq<u8>>::empty(),
                events: Seq::<EventV>::empty(),
            }),
            r.requests() == Seq::<PendingRequest>::empty(),
            r.fds() == Seq::<Fd>::empty(),
    {
        let r = Display {
            connection,
            byte_order,
            last_sequence: 0,
            pending_requests: Vec::new(),
            pending_replies: HashMap::new(),
            event_queue: Vec::new(),
            received_fds: Vec::new(),
        };
        proof {
            assert(r.demux().replies =~= Map::<u64, Seq<u8>>::empty());
            assert(r.demux().events =~= Seq::<EventV>::empty());
        }
        r
    }

    /// Register a pending request for a just-issued request with logical
    /// sequence number `req`.  The issuer assigns sequence numbers in
    /// strictly increasing order and must register a request before any
    /// `wait` call can attribute its reply.
    pub fn expect_reply(&mut self, req: u64, flags: PendingRequestFlags)
        requires
            old(self).wf(),
            old(self).demux().last_sequence < req,
            req <= SEQUENCE_LIMIT,
        ensures
            final(self).wf(),
            final(self).order() == old(self).order(),
            final(self).fds() == old(self).fds(),
            final(self).demux().replies == old(self).demux().replies,
            final(self).demux().events == old(self).demux().events,
            final(self).demux().last_sequence == req,
            final(self).requests() == old(self).requests().push(
                PendingRequest { first_request: req, last_request: req, flags },
            ),
    {
        let pereq = PendingRequest { first_request: req, last_request: req, flags };
        self.pending_requests.push(pereq);
        self.last_sequence = req;
    }

    /// Classify one completed packet and route it: insert a reply into the
    /// pending-replies map under its promoted sequence number, append an
    /// event to the queue, or return the decoded error as this call's
    /// failure.  Exactly one of the three happens.
    pub fn process_bytes(&mut self, bytes: Vec<u8>) -> (r: Result<(), CoreError>)
        requires
            old(self).wf(),
        ensures
            final(self).wf(),
            final(self).order() == old(self).order(),
            final(self).requests() == old(self).requests(),
            final(self).fds() == old(self).fds(),
            final(self).demux() == route(old(self).demux(), bytes@, old(self).order()),
            match r {
                Ok(()) => route_refusal(bytes@, old(self).order()) is None,
                Err(e) => route_refusal(bytes@, old(self).order()) == Some(e@),
            },
    {
        if bytes.len() < 32 {
            return Err(CoreError::Malformed);
        }
        let disc = bytes[0] & TYPE_MASK;
        if disc == TYPE_REPLY {
            let wire = decode_u16_at(&bytes, self.byte_order);
            let seqno = promote_sequence(self.last_sequence, wire);
            let ghost prev = self.pending_replies@;
            let ghost payload = bytes@;
            self.pending_replies.insert(seqno, bytes);
            proof {
                assert(self.pending_replies@.map_values(|v: Vec<u8>| v@) =~= prev.map_values(
                    |v: Vec<u8>| v@,
                ).insert(seqno, payload));
            }
            Ok(())
        } else if disc == TYPE_ERROR {
            Err(CoreError::Protocol(decode_error(bytes, self.byte_order)))
        } else {
            let ev = decode_event(bytes);
            let ghost evv = ev@;
            let ghost prev = self.event_queue@;
            self.event_queue.push(ev);
            proof {
                assert(self.event_queue@.map_values(|e: Event| e@) =~= prev.map_values(
                    |e: Event| e@,
                ).push(evv));
            }
            Ok(())
        }
    }

    /// Whether a reply for logical sequence number `seqno` is waiting.
    pub fn has_reply(&self, seqno: u64) -> (r: bool)
        ensures
            r == self.demux().replies.contains_key(seqno),
    {
        let r = self.pending_replies.contains_key(&seqno);
        proof {
            assert(self.pending_replies@.contains_key(seqno) == self.demux(
            ).replies.contains_key(seqno));
        }
        r
    }

    /// Retrieve — and remove — the reply stored for logical sequence number
    /// `seqno`, if it has arrived.
    pub fn take_reply(&mut self, seqno: u64) -> (r: Option<Vec<u8>>)
        ensures
            final(self).wf() == old(self).wf(),
            final(self).order() == old(self).order(),
            final(self).requests() == old(self).requests(),
            final(self).fds() == old(self).fds(),
            final(self).demux().last_sequence == old(self).demux().last_sequence,
            final(self).demux().events == old(self).demux().events,
            match r {
                Some(v) => old(self).demux().replies.contains_key(seqno) && v@ == old(
                    self,
                ).demux().replies[seqno] && final(self).demux().replies == old(
                    self,
                ).demux().replies.remove(seqno),
                None => !old(self).demux().replies.contains_key(seqno) && final(self).demux()
                    == old(self).demux(),
            },
    {
        let ghost prev = self.pending_replies@;
        let r = self.pending_replies.remove(&seqno);
        proof {
            assert(self.pending_replies@.map_values(|v: Vec<u8>| v@) =~= prev.map_values(
                |v: Vec<u8>| v@,
            ).remove(seqno));
            if prev.contains_key(seqno) {
                assert(prev.map_values(|v: Vec<u8>| v@)[seqno] == prev[seqno]@);
            } else {
                assert(self.pending_replies@.map_values(|v: Vec<u8>| v@) =~= prev.map_values(
                    |v: Vec<u8>| v@,
                ));
            }
        }
        r
    }

    /// The number of events queued for delivery.
    pub fn event_count(&self) -> (n: usize)
        ensures
            n == self.demux().events.len(),
    {
        self.event_queue.len()
    }

    /// Remove and return the event at the head of the queue, if any.
    pub fn pop_event(&mut self) -> (r: Option<Event>)
        ensures
            final(self).wf() == old(self).wf(),
            final(self).order() == old(self).order(),
            final(self).requests() == old(self).requests(),
            final(self).fds() == old(self).fds(),
            final(self).demux().last_sequence == old(self).demux().last_sequence,
            final(self).demux().replies == old(self).demux().replies,
            match r {
                Some(ev) => old(self).demux().events.len() > 0 && ev@ == old(
                    self,
                ).demux().events[0] && final(self).demux().events == old(
                    self,
                ).demux().events.skip(1),
                None => old(self).demux().events.len() == 0 && final(self).demux() == old(
                    self,
                ).demux(),
            },
    {
        if self.event_queue.len() == 0 {
            None
        } else {
            let ghost prev = self.event_queue@;
            let ev = self.event_queue.remove(0);
            proof {
                assert(self.event_queue@.map_values(|e: Event| e@) =~= prev.map_values(
                    |e: Event| e@,
                ).skip(1));
            }
            Some(ev)
        }
    }

    /// The number of received ancillary descriptors not yet taken over.
    pub fn fd_count(&self) -> (n: usize)
        ensures
            n == self.fds().len(),
    {
        self.received_fds.len()
    }

    /// The byte order the connection negotiated.
    pub fn byte_order(&self) -> (r: ByteOrder)
        ensures
            r == self.order(),
    {
        self.byte_order
    }

    /// Whether the session is well-formed; every session built and driven
    /// through this interface is.
    pub fn is_wf(&self) -> (r: bool)
        ensures
            r == self.wf(),
    {
        self.last_sequence <= SEQUENCE_LIMIT
    }

    /// Append descriptors received on the caller's behalf to this session's
    /// descriptor list, in the order given.
    pub fn absorb_fds(&mut self, incoming: &Vec<Fd>)
        ensures
            final(self).wf() == old(self).wf(),
            final(self).order() == old(self).order(),
            final(self).requests() == old(self).requests(),
            final(self).demux() == old(self).demux(),
            final(self).fds() == old(self).fds() + incoming@,
    {
        let mut k: usize = 0;
        while k < incoming.len()
            invariant
                k <= incoming@.len(),
                self.received_fds@ == old(self).received_fds@ + incoming@.take(k as int),
                self.connection == old(self).connection,
                self.byte_order == old(self).byte_order,
                self.last_sequence == old(self).last_sequence,
                self.pending_requests == old(self).pending_requests,
                self.pending_replies == old(self).pending_replies,
                self.event_queue == old(self).event_queue,
            decreases incoming@.len() - k,
        {
            self.received_fds.push(incoming[k]);
            proof {
                assert(incoming@.take(k + 1) =~= incoming@.take(k as int).push(
                    incoming@[k as int],
                ));
            }
            k += 1;
        }
        proof {
            assert(incoming@.take(incoming@.len() as int) =~= incoming@);
        }
    }
}

/// Decode the 16-bit wire sequence number stored in bytes 2..4 of a packet.
fn decode_u16_at(bytes: &Vec<u8>, order: ByteOrder) -> (r: u16)
    requires
        bytes@.len() >= 4,
    ensures
        r == spec_u16(bytes@[2], bytes@[3], order),
{
    let b2 = bytes[2];
    let b3 = bytes[3];
    crate::codec::decode_u16(b2, b3, order)
}

/// A fresh zero-initialized buffer of `n` bytes.
fn zeroes(n: usize) -> (r: Vec<u8>)
    ensures
        r@.len() == n,
        forall|i: int| 0 <= i < n ==> r@[i] == 0u8,
{
    let mut v: Vec<u8> = Vec::new();
    let mut k: usize = 0;
    while k < n
        invariant
            k <= n,
            v@.len() == k,
            forall|i: int| 0 <= i < k ==> v@[i] == 0u8,
        decreases n - k,
    {
        v.push(0);
        k += 1;
    }
    v
}

/// Grow `buf` in place by `words` zero-initialized four-byte units.
fn grow_words(buf: &mut Vec<u8>, words: usize)
    ensures
        final(buf)@.len() == old(buf)@.len() + 4 * words,
        final(buf)@.subrange(0, old(buf)@.len() as int) == old(buf)@,
        forall|i: int|
            old(buf)@.len() <= i < final(buf)@.len() ==> final(buf)@[i] == 0u8,
{
    let mut k: usize = 0;
    while k < words
        invariant
            k <= words,
            buf@.len() == old(buf)@.len() + 4 * k,
            buf@.subrange(0, old(buf)@.len() as int) == old(buf)@,
            forall|i: int| old(buf)@.len() <= i < buf@.len() ==> buf@[i] == 0u8,
        decreases words - k,
    {
        buf.push(0);
        buf.push(0);
        buf.push(0);
        buf.push(0);
        proof {
            assert(buf@.subrange(0, old(buf)@.len() as int) =~= old(buf)@);
        }
        k += 1;
    }
}

impl<C: Connection> Display<C> {
    /// Wait for one packet and route it.
    ///
    /// Exactly one full packet is read: the 32-byte base unit first and,
    /// when the header calls for them, the additional bytes in one further
    /// read sized to fill only the newly appended region.  The completed
    /// packet is then classified and routed as [`route`] describes.  `Ok`
    /// means one packet was drained, not that any particular reply arrived.
    /// Ancillary descriptors received along the way are appended to this
    /// session's descriptor list even when the call fails afterwards.
    pub fn wait(&mut self) -> (r: Result<(), CoreError>)
        requires
            old(self).wf(),
        ensures
            final(self).wf(),
            final(self).order() == old(self).order(),
            final(self).requests() == old(self).requests(),
            old(self).fds().is_prefix_of(final(self).fds()),
            match r {
                Ok(()) => exists|b: Seq<u8>|
                    complete_packet(b, old(self).order()) && route_refusal(b, old(self).order())
                        is None && final(self).demux() == route(
                        old(self).demux(),
                        b,
                        old(self).order(),
                    ),
                Err(e) => final(self).demux() == old(self).demux() && !(e@ is Malformed) && (
                match e@ {
                    CoreErrorV::Protocol(pe) => exists|b: Seq<u8>|
                        complete_packet(b, old(self).order()) && route_refusal(
                            b,
                            old(self).order(),
                        ) == Some(CoreErrorV::Protocol(pe)),
                    _ => true,
                }),
            },
    {
        let order = self.byte_order;
        let mut bytes = zeroes(32);
        match read_packet(&mut self.connection, &mut bytes, 0, &mut self.received_fds) {
            Ok(()) => {},
            Err(f) => {
                return Err(CoreError::Transport(f));
            },
        }
        let ghost base = bytes@;
        let ab = additional_bytes(bytes.as_slice(), order);
        if let Some(words) = ab {
            if words > 0 {
                grow_words(&mut bytes, words);
                let ghost grown = bytes@;
                match read_packet(&mut self.connection, &mut bytes, 32, &mut self.received_fds) {
                    Ok(()) => {},
                    Err(f) => {
                        return Err(CoreError::Transport(f));
                    },
                }
                proof {
                    assert forall|i: int| 0 <= i < 32 implies bytes@[i] == base[i] by {
                        assert(bytes@.subrange(0, 32)[i] == bytes@[i]);
                        assert(grown.subrange(0, 32)[i] == grown[i]);
                        assert(grown.subrange(0, base.len() as int)[i] == grown[i]);
                    }
                }
            }
        }
        proof {
            assert(complete_packet(bytes@, order));
        }
        let ghost packet = bytes@;
        let r = self.process_bytes(bytes);
        match r {
            Ok(()) => {
                proof {
                    assert(complete_packet(packet, order) && route_refusal(packet, order) is None
                        && final(self).demux() == route(old(self).demux(), packet, order));
                }
                Ok(())
            },
            Err(e) => Err(e),
        }
    }
}

/// Reply routing law: routing a reply packet whose wire sequence promotes to
/// `n` stores exactly the received payload bytes under key `n`, touches
/// nothing else, and reports no refusal.
pub proof fn lemma_reply_routing(s: DemuxState, bytes: Seq<u8>, order: ByteOrder)
    requires
        bytes.len() >= 32,
        spec_discriminator(bytes) == TYPE_REPLY,
    ensures
        ({
            let n = spec_promote(s.last_sequence, spec_u16(bytes[2], bytes[3], order));
            &&& route(s, bytes, order).replies == s.replies.insert(n, bytes)
            &&& route(s, bytes, order).replies.contains_key(n)
            &&& route(s, bytes, order).replies[n] == bytes
            &&& route(s, bytes, order).events == s.events
            &&& route(s, bytes, order).last_sequence == s.last_sequence
            &&& route_refusal(bytes, order) is None
        }),
{
}

/// Event ordering law: three event packets routed in the order `a`, `b`,
/// `c`, with a reply packet routed between them, leave the queue extended by
/// their three events in that same order.
pub proof fn lemma_event_ordering(
    s: DemuxState,
    a: Seq<u8>,
    rp: Seq<u8>,
    b: Seq<u8>,
    c: Seq<u8>,
    order: ByteOrder,
)
    requires
        a.len() >= 32,
        spec_discriminator(a) != TYPE_ERROR,
        spec_discriminator(a) != TYPE_REPLY,
        b.len() >= 32,
        spec_discriminator(b) != TYPE_ERROR,
        spec_discriminator(b) != TYPE_REPLY,
        c.len() >= 32,
        spec_discriminator(c) != TYPE_ERROR,
        spec_discriminator(c) != TYPE_REPLY,
        rp.len() >= 32,
        spec_discriminator(rp) == TYPE_REPLY,
    ensures
        route(route(route(route(s, a, order), rp, order), b, order), c, order).events == s.events
            + seq![spec_event_of(a), spec_event_of(b), spec_event_of(c)],
{
    assert(route(route(route(route(s, a, order), rp, order), b, order), c, order).events =~= s.events
        + seq![spec_event_of(a), spec_event_of(b), spec_event_of(c)]);
}

/// Error termination law: routing an error-classified packet changes
/// neither the pending-replies map nor the event queue; the decoded error is
/// reported as the refusal of the very call that read it.
pub proof fn lemma_error_termination(s: DemuxState, bytes: Seq<u8>, order: ByteOrder)
    requires
        bytes.len() >= 32,
        spec_discriminator(bytes) == TYPE_ERROR,
    ensures
        route(s, bytes, order) == s,
        route_refusal(bytes, order) == Some(CoreErrorV::Protocol(spec_error_of(bytes, order))),
{
}

} // verus!
