//! Packet transport: moving byte buffers and file-descriptor lists across a
//! connection while hiding transient interruption.
//!
//! The actual I/O primitive lives outside this crate, behind the
//! [`Connection`] trait: one attempt to send or to receive, which may report
//! that it was interrupted before doing anything.  The drivers here retry an
//! interrupted attempt transparently, clear the descriptor list only on a
//! successful send, and append received ancillary descriptors to the
//! caller's list.

use vstd::prelude::*;

verus! {

/// A file or resource handle transferred out-of-band alongside packet bytes.
pub type Fd = i32;

/// The single connection-level error kind every non-retryable transport
/// failure is surfaced as; `code` is the underlying platform error number.
#[derive(Clone, Copy, PartialEq, Eq, Structural, Debug)]
pub struct IoFault {
    pub code: i32,
}

/// The result of one send attempt on a [`Connection`].
#[derive(Clone, Copy, Debug)]
pub enum SendOutcome {
    /// The bytes and any attached descriptors were handed to the kernel.
    Sent,
    /// The attempt was interrupted before anything happened; it may be
    /// retried with the same arguments.
    Interrupted,
    /// A non-retryable failure.
    Failed(IoFault),
}

/// One ancillary control message received alongside packet bytes.  Only
/// rights messages carry descriptors; any other kind is ignored for forward
/// compatibility.
#[derive(Clone, Debug)]
pub enum Ancillary {
    /// Descriptors whose ownership passes to the receiver.
    Rights(Vec<Fd>),
    /// A control message of any other kind.
    Other,
}

/// The result of one receive attempt on a [`Connection`].
#[derive(Clone, Debug)]
pub enum RecvOutcome {
    /// The requested bytes were received, together with the ancillary
    /// control messages that arrived with them.
    Received(Vec<Ancillary>),
    /// The attempt was interrupted before anything happened; it may be
    /// retried with the same arguments.
    Interrupted,
    /// A non-retryable failure.
    Failed(IoFault),
}

/// A byte-stream connection able to carry packets and ancillary
/// descriptors.  Implementations live outside this crate (a blocking socket,
/// or a cooperative wrapper that suspends until the descriptor is ready and
/// only then attempts the call); each method makes exactly one attempt, and
/// the drivers below supply the retry policy both execution modes share.
pub trait Connection {
    /// Attempt one vectored send of `data` with `fds` attached as ancillary
    /// data if non-empty.
    fn try_send(&mut self, data: &[u8], fds: &Vec<Fd>) -> SendOutcome;

    /// Attempt to fill `buf[start..]` with received bytes, returning the
    /// ancillary control messages that arrived with them.  The bytes before
    /// `start` are the caller's and must be left as they are.
    fn try_recv(&mut self, buf: &mut Vec<u8>, start: usize) -> (r: RecvOutcome)
        requires
            start <= old(buf)@.len(),
        ensures
            final(buf)@.len() == old(buf)@.len(),
            final(buf)@.subrange(0, start as int) == old(buf)@.subrange(0, start as int),
    ;
}

/// The platform code the retry drivers surface in the one case they give up
/// retrying: an attempt that still reports interruption after the drivers'
/// astronomically large retry allowance.  The allowance exists so that the
/// drivers provably terminate; running into it takes longer than a machine
/// lives, so in practice interruption is absorbed completely.
pub const CODE_INTERRUPTED: i32 = 4;

/// The result a run of send attempts settles on: `None` while every attempt
/// so far was interrupted, otherwise the outcome of the first attempt that
/// was not.
pub open spec fn spec_send_result(outcomes: Seq<SendOutcome>) -> Option<Result<(), IoFault>>
    decreases outcomes.len(),
{
    if outcomes.len() == 0 {
        None
    } else {
        match outcomes[0] {
            SendOutcome::Sent => Some(Ok(())),
            SendOutcome::Failed(f) => Some(Err(f)),
            SendOutcome::Interrupted => spec_send_result(outcomes.skip(1)),
        }
    }
}

/// Extending an undecided run of attempts with one more attempt decides it
/// exactly as that attempt does.
proof fn lemma_send_result_extend(outcomes: Seq<SendOutcome>, o: SendOutcome)
    requires
        spec_send_result(outcomes) is None,
    ensures
        spec_send_result(outcomes.push(o)) == match o {
            SendOutcome::Sent => Some(Ok::<(), IoFault>(())),
            SendOutcome::Failed(f) => Some(Err::<(), IoFault>(f)),
            SendOutcome::Interrupted => None::<Result<(), IoFault>>,
        },
    decreases outcomes.len(),
{
    reveal_with_fuel(spec_send_result, 3);
    if outcomes.len() == 0 {
        assert(outcomes.push(o)[0] == o);
        assert(outcomes.push(o).skip(1) =~= Seq::<SendOutcome>::empty());
    } else {
        assert(outcomes.push(o)[0] == outcomes[0]);
        assert(outcomes.push(o).skip(1) =~= outcomes.skip(1).push(o));
        lemma_send_result_extend(outcomes.skip(1), o);
    }
}

/// Interruption transparency: a run of attempts in which every attempt but
/// the last was interrupted, and the last succeeded, settles on success —
/// the caller observes no error however many interruptions preceded it.
pub proof fn lemma_send_interruption_transparent(outcomes: Seq<SendOutcome>)
    requires
        outcomes.len() >= 1,
        forall|i: int| 0 <= i < outcomes.len() - 1 ==> outcomes[i] is Interrupted,
        outcomes.last() is Sent,
    ensures
        spec_send_result(outcomes) == Some(Ok::<(), IoFault>(())),
    decreases outcomes.len(),
{
    if outcomes.len() == 1 {
    } else {
        lemma_send_interruption_transparent(outcomes.skip(1));
    }
}

/// Send one packet: `data` as the bytes, `fds` attached as ancillary data.
///
/// An interrupted attempt is retried with the same arguments, invisibly to
/// the caller, up to the drivers' retry allowance (see
/// [`CODE_INTERRUPTED`]).  On success the descriptor list is cleared —
/// ownership of the descriptors has passed to the kernel.  On failure the
/// list is left exactly as it was, so the caller may inspect, retry or
/// release them.
pub fn send_packet<C: Connection>(conn: &mut C, data: &[u8], fds: &mut Vec<Fd>) -> (r: Result<
    (),
    IoFault,
>)
    ensures
        r is Ok ==> final(fds)@ == Seq::<Fd>::empty(),
        r is Err ==> final(fds)@ == old(fds)@,
        (exists|outcomes: Seq<SendOutcome>| spec_send_result(outcomes) == Some(r)) || r
            == Err::<(), IoFault>(IoFault { code: CODE_INTERRUPTED }),
{
    let ghost mut seen: Seq<SendOutcome> = Seq::empty();
    let mut attempts: u64 = 0;
    while attempts < 0xffff_ffff_ffff_ffff
        invariant
            fds@ == old(fds)@,
            spec_send_result(seen) is None,
        decreases 0xffff_ffff_ffff_ffff - attempts,
    {
        let o = conn.try_send(data, fds);
        proof {
            lemma_send_result_extend(seen, o);
            seen = seen.push(o);
        }
        match o {
            SendOutcome::Sent => {
                fds.clear();
                assert(spec_send_result(seen) == Some(Ok::<(), IoFault>(())));
                return Ok(());
            },
            SendOutcome::Interrupted => {
                attempts += 1;
            },
            SendOutcome::Failed(f) => {
                return Err(f);
            },
        }
    }
    Err(IoFault { code: CODE_INTERRUPTED })
}

/// The descriptors carried by a sequence of ancillary messages, in arrival
/// order: the concatenation of every rights message's list, other kinds
/// ignored.
pub open spec fn spec_rights_of(msgs: Seq<Ancillary>) -> Seq<Fd>
    decreases msgs.len(),
{
    if msgs.len() == 0 {
        Seq::empty()
    } else {
        spec_rights_of(msgs.drop_last()) + match msgs.last() {
            Ancillary::Rights(v) => v@,
            Ancillary::Other => Seq::empty(),
        }
    }
}

/// Append to `fds` every descriptor carried by `msgs`, in arrival order.
fn append_rights(fds: &mut Vec<Fd>, msgs: &Vec<Ancillary>)
    ensures
        final(fds)@ == old(fds)@ + spec_rights_of(msgs@),
{
    let mut i: usize = 0;
    while i < msgs.len()
        invariant
            i <= msgs@.len(),
            fds@ == old(fds)@ + spec_rights_of(msgs@.take(i as int)),
        decreases msgs@.len() - i,
    {
        proof {
            assert(msgs@.take(i + 1).drop_last() =~= msgs@.take(i as int));
            assert(msgs@.take(i + 1).last() == msgs@[i as int]);
        }
        match &msgs[i] {
            Ancillary::Rights(v) => {
                let mut j: usize = 0;
                while j < v.len()
                    invariant
                        j <= v@.len(),
                        fds@ == old(fds)@ + spec_rights_of(msgs@.take(i as int)) + v@.take(
                            j as int,
                        ),
                    decreases v@.len() - j,
                {
                    fds.push(v[j]);
                    proof {
                        assert(v@.take(j + 1) =~= v@.take(j as int).push(v@[j as int]));
                    }
                    j += 1;
                }
                proof {
                    assert(v@.take(v@.len() as int) =~= v@);
                }
            },
            Ancillary::Other => {},
        }
        proof {
            assert(fds@ =~= old(fds)@ + spec_rights_of(msgs@.take(i + 1)));
        }
        i += 1;
    }
    proof {
        assert(msgs@.take(msgs@.len() as int) =~= msgs@);
    }
}

/// The result a run of receive attempts settles on, as
/// [`spec_send_result`] for sends: the ancillary messages of the first
/// attempt that was not interrupted, or its failure.
pub open spec fn spec_recv_result(outcomes: Seq<RecvOutcome>) -> Option<
    Result<Seq<Ancillary>, IoFault>,
>
    decreases outcomes.len(),
{
    if outcomes.len() == 0 {
        None
    } else {
        match outcomes[0] {
            RecvOutcome::Received(msgs) => Some(Ok(msgs@)),
            RecvOutcome::Failed(f) => Some(Err(f)),
            RecvOutcome::Interrupted => spec_recv_result(outcomes.skip(1)),
        }
    }
}

/// Extending an undecided run of receive attempts with one more attempt
/// decides it exactly as that attempt does.
proof fn lemma_recv_result_extend(outcomes: Seq<RecvOutcome>, o: RecvOutcome)
    requires
        spec_recv_result(outcomes) is None,
    ensures
        spec_recv_result(outcomes.push(o)) == match o {
            RecvOutcome::Received(msgs) => Some(Ok::<Seq<Ancillary>, IoFault>(msgs@)),
            RecvOutcome::Failed(f) => Some(Err::<Seq<Ancillary>, IoFault>(f)),
            RecvOutcome::Interrupted => None::<Result<Seq<Ancillary>, IoFault>>,
        },
    decreases outcomes.len(),
{
    reveal_with_fuel(spec_recv_result, 3);
    if outcomes.len() == 0 {
        assert(outcomes.push(o)[0] == o);
        assert(outcomes.push(o).skip(1) =~= Seq::<RecvOutcome>::empty());
    } else {
        assert(outcomes.push(o)[0] == outcomes[0]);
        assert(outcomes.push(o).skip(1) =~= outcomes.skip(1).push(o));
        lemma_recv_result_extend(outcomes.skip(1), o);
    }
}

/// Interruption transparency for receives: interrupted attempts followed by
/// one successful attempt settle on that attempt's messages.
pub proof fn lemma_recv_interruption_transparent(outcomes: Seq<RecvOutcome>, msgs: Vec<Ancillary>)
    requires
        outcomes.len() >= 1,
        forall|i: int| 0 <= i < outcomes.len() - 1 ==> outcomes[i] is Interrupted,
        outcomes.last() == RecvOutcome::Received(msgs),
    ensures
        spec_recv_result(outcomes) == Some(Ok::<Seq<Ancillary>, IoFault>(msgs@)),
    decreases outcomes.len(),
{
    if outcomes.len() == 1 {
    } else {
        lemma_recv_interruption_transparent(outcomes.skip(1), msgs);
    }
}

/// Receive exactly `buf.len() - start` bytes into `buf[start..]`.
///
/// An interrupted attempt is retried invisibly, up to the drivers' retry
/// allowance (see [`CODE_INTERRUPTED`]).  Ancillary descriptors that
/// arrive with the bytes are appended to `fds` in arrival order; control
/// messages of other kinds are ignored.  On failure `fds` is left as it was,
/// but the bytes past `start` are not guaranteed untouched.
pub fn read_packet<C: Connection>(
    conn: &mut C,
    buf: &mut Vec<u8>,
    start: usize,
    fds: &mut Vec<Fd>,
) -> (r: Result<(), IoFault>)
    requires
        start <= old(buf)@.len(),
    ensures
        final(buf)@.len() == old(buf)@.len(),
        final(buf)@.subrange(0, start as int) == old(buf)@.subrange(0, start as int),
        r is Ok ==> exists|outcomes: Seq<RecvOutcome>, msgs: Seq<Ancillary>|
            spec_recv_result(outcomes) == Some(Ok::<Seq<Ancillary>, IoFault>(msgs))
                && final(fds)@ == old(fds)@ + spec_rights_of(msgs),
        r matches Err(f) ==> final(fds)@ == old(fds)@ && ((exists|outcomes: Seq<RecvOutcome>|
            spec_recv_result(outcomes) == Some(Err::<Seq<Ancillary>, IoFault>(f))) || f
            == (IoFault { code: CODE_INTERRUPTED })),
{
    let ghost mut seen: Seq<RecvOutcome> = Seq::empty();
    let mut attempts: u64 = 0;
    while attempts < 0xffff_ffff_ffff_ffff
        invariant
            start <= buf@.len(),
            buf@.len() == old(buf)@.len(),
            buf@.subrange(0, start as int) == old(buf)@.subrange(0, start as int),
            fds@ == old(fds)@,
            spec_recv_result(seen) is None,
        decreases 0xffff_ffff_ffff_ffff - attempts,
    {
        let o = conn.try_recv(buf, start);
        proof {
            lemma_recv_result_extend(seen, o);
            seen = seen.push(o);
        }
        match o {
            RecvOutcome::Received(msgs) => {
                let ghost m = msgs@;
                append_rights(fds, &msgs);
                assert(spec_recv_result(seen) == Some(Ok::<Seq<Ancillary>, IoFault>(m)));
                assert(fds@ == old(fds)@ + spec_rights_of(m));
                return Ok(());
            },
            RecvOutcome::Interrupted => {
                attempts += 1;
            },
            RecvOutcome::Failed(f) => {
                return Err(f);
            },
        }
    }
    Err(IoFault { code: CODE_INTERRUPTED })
}

} // verus!
