use std::cell::RefCell;
use std::rc::Rc;

use breadx::codec::ByteOrder;
use breadx::display::{Display, PendingRequestFlags};
use breadx::protocol::CoreError;
use breadx::transport::{
    read_packet, send_packet, Ancillary, Connection, Fd, IoFault, RecvOutcome, SendOutcome,
};

/// Shared, inspectable state of a scripted connection.
#[derive(Default)]
struct ScriptState {
    /// Bytes the connection serves, as one flat stream.
    incoming: Vec<u8>,
    /// Read cursor into `incoming`.
    pos: usize,
    /// The size of every read request served, in order.
    read_sizes: Vec<usize>,
    /// Bytes handed to `try_send`, concatenated.
    sent: Vec<u8>,
    /// How many attempts report interruption before one goes through.
    interrupts_before: usize,
    /// Attempts made, interrupted ones included.
    attempts: usize,
    /// Every further attempt fails with this platform code.
    fail_code: Option<i32>,
    /// Ancillary messages handed out with the next successful read.
    ancillary: Vec<Ancillary>,
}

#[derive(Default)]
struct ScriptConn {
    state: Rc<RefCell<ScriptState>>,
}

impl ScriptConn {
    fn new(state: Rc<RefCell<ScriptState>>) -> Self {
        ScriptConn { state }
    }
}

impl Connection for ScriptConn {
    fn try_send(&mut self, data: &[u8], _fds: &Vec<Fd>) -> SendOutcome {
        let mut st = self.state.borrow_mut();
        st.attempts += 1;
        if st.interrupts_before > 0 {
            st.interrupts_before -= 1;
            return SendOutcome::Interrupted;
        }
        if let Some(code) = st.fail_code {
            return SendOutcome::Failed(IoFault { code });
        }
        st.sent.extend_from_slice(data);
        SendOutcome::Sent
    }

    fn try_recv(&mut self, buf: &mut Vec<u8>, start: usize) -> RecvOutcome {
        let mut st = self.state.borrow_mut();
        st.attempts += 1;
        if st.interrupts_before > 0 {
            st.interrupts_before -= 1;
            return RecvOutcome::Interrupted;
        }
        if let Some(code) = st.fail_code {
            return RecvOutcome::Failed(IoFault { code });
        }
        let n = buf.len() - start;
        st.read_sizes.push(n);
        for k in 0..n {
            buf[start + k] = st.incoming[st.pos + k];
        }
        st.pos += n;
        RecvOutcome::Received(std::mem::take(&mut st.ancillary))
    }
}

/// A 32-byte base packet with the given discriminator and little-endian wire
/// sequence number.
fn base_packet(disc: u8, seq: u16) -> Vec<u8> {
    let mut b = vec![0u8; 32];
    b[0] = disc;
    b[2] = (seq & 0xff) as u8;
    b[3] = (seq >> 8) as u8;
    b
}

/// A reply packet with `extra` additional four-byte units, payload filled
/// with `fill`.
fn reply_packet(seq: u16, extra: u32, fill: u8) -> Vec<u8> {
    let mut b = base_packet(1, seq);
    b[4] = (extra & 0xff) as u8;
    b[5] = ((extra >> 8) & 0xff) as u8;
    b[6] = ((extra >> 16) & 0xff) as u8;
    b[7] = ((extra >> 24) & 0xff) as u8;
    for _ in 0..extra * 4 {
        b.push(fill);
    }
    b
}

fn display_over(incoming: Vec<u8>) -> (Display<ScriptConn>, Rc<RefCell<ScriptState>>) {
    let state = Rc::new(RefCell::new(ScriptState {
        incoming,
        ..ScriptState::default()
    }));
    let conn = ScriptConn::new(state.clone());
    (Display::new(conn, ByteOrder::Little), state)
}

fn flags() -> PendingRequestFlags {
    PendingRequestFlags {
        expects_reply: true,
        discard_on_error: false,
    }
}

#[test]
fn send_success_clears_descriptor_list() {
    let state = Rc::new(RefCell::new(ScriptState::default()));
    let mut conn = ScriptConn::new(state.clone());
    let mut fds: Vec<Fd> = vec![3, 4, 5];
    let r = send_packet(&mut conn, &[1, 2, 3], &mut fds);
    assert!(r.is_ok());
    assert!(fds.is_empty());
    assert_eq!(state.borrow().sent, vec![1, 2, 3]);
}

#[test]
fn send_failure_leaves_descriptor_list_unchanged() {
    let state = Rc::new(RefCell::new(ScriptState {
        fail_code: Some(32),
        ..ScriptState::default()
    }));
    let mut conn = ScriptConn::new(state);
    let mut fds: Vec<Fd> = vec![3, 4, 5];
    let r = send_packet(&mut conn, &[1, 2, 3], &mut fds);
    assert_eq!(r, Err(IoFault { code: 32 }));
    assert_eq!(fds, vec![3, 4, 5]);
}

#[test]
fn send_interrupted_twice_succeeds_invisibly() {
    let state = Rc::new(RefCell::new(ScriptState {
        interrupts_before: 2,
        ..ScriptState::default()
    }));
    let mut conn = ScriptConn::new(state.clone());
    let mut fds: Vec<Fd> = vec![9];
    let r = send_packet(&mut conn, &[7], &mut fds);
    assert!(r.is_ok());
    assert!(fds.is_empty());
    assert_eq!(state.borrow().attempts, 3);
}

#[test]
fn receive_interrupted_twice_succeeds_invisibly() {
    let state = Rc::new(RefCell::new(ScriptState {
        incoming: vec![0xaa; 8],
        interrupts_before: 2,
        ..ScriptState::default()
    }));
    let mut conn = ScriptConn::new(state.clone());
    let mut buf = vec![0u8; 8];
    let mut fds: Vec<Fd> = Vec::new();
    let r = read_packet(&mut conn, &mut buf, 0, &mut fds);
    assert!(r.is_ok());
    assert_eq!(buf, vec![0xaa; 8]);
    assert_eq!(state.borrow().attempts, 3);
}

#[test]
fn receive_appends_rights_descriptors_in_order() {
    let state = Rc::new(RefCell::new(ScriptState {
        incoming: vec![0u8; 4],
        ancillary: vec![
            Ancillary::Rights(vec![5, 6]),
            Ancillary::Other,
            Ancillary::Rights(vec![7]),
        ],
        ..ScriptState::default()
    }));
    let mut conn = ScriptConn::new(state);
    let mut buf = vec![0u8; 4];
    let mut fds: Vec<Fd> = vec![1];
    let r = read_packet(&mut conn, &mut buf, 0, &mut fds);
    assert!(r.is_ok());
    assert_eq!(fds, vec![1, 5, 6, 7]);
}

#[test]
fn reply_with_additional_length_reads_exactly_that_much() {
    let packet = reply_packet(1, 2, 0xcd);
    let (mut d, state) = display_over(packet.clone());
    d.expect_reply(1, flags());
    assert!(d.wait().is_ok());
    // the base unit first, then one read sized to the appended region only
    assert_eq!(state.borrow().read_sizes, vec![32, 8]);
    assert_eq!(d.take_reply(1), Some(packet));
}

#[test]
fn non_reply_reads_exactly_the_base_unit() {
    let packet = base_packet(12, 0);
    let (mut d, state) = display_over(packet);
    assert!(d.wait().is_ok());
    assert_eq!(state.borrow().read_sizes, vec![32]);
    assert_eq!(d.event_count(), 1);
}

#[test]
fn reply_routing_stores_exact_payload_under_its_sequence() {
    let packet = reply_packet(42, 0, 0);
    let (mut d, _state) = display_over(packet.clone());
    d.expect_reply(42, flags());
    assert!(!d.has_reply(42));
    assert!(d.wait().is_ok());
    assert!(d.has_reply(42));
    assert_eq!(d.take_reply(42), Some(packet));
    assert!(!d.has_reply(42));
}

#[test]
fn event_order_is_kept_across_interleaved_replies() {
    let mut stream = Vec::new();
    stream.extend_from_slice(&base_packet(2, 0));
    stream.extend_from_slice(&reply_packet(1, 0, 0));
    stream.extend_from_slice(&base_packet(3, 0));
    stream.extend_from_slice(&base_packet(4, 0));
    let (mut d, _state) = display_over(stream);
    d.expect_reply(1, flags());
    for _ in 0..4 {
        assert!(d.wait().is_ok());
    }
    assert_eq!(d.event_count(), 3);
    assert_eq!(d.pop_event().unwrap().code, 2);
    assert_eq!(d.pop_event().unwrap().code, 3);
    assert_eq!(d.pop_event().unwrap().code, 4);
    assert!(d.pop_event().is_none());
    assert!(d.has_reply(1));
}

#[test]
fn error_packet_terminates_wait_and_mutates_nothing() {
    let mut packet = base_packet(0, 7);
    packet[1] = 11; // error code
    let (mut d, _state) = display_over(packet);
    d.expect_reply(7, flags());
    let r = d.wait();
    match r {
        Err(CoreError::Protocol(pe)) => {
            assert_eq!(pe.error_code, 11);
            assert_eq!(pe.sequence, 7);
        }
        other => panic!("expected a protocol error, got {:?}", other),
    }
    assert_eq!(d.event_count(), 0);
    assert!(!d.has_reply(7));
}

#[test]
fn transport_failure_surfaces_as_transport_error() {
    let state = Rc::new(RefCell::new(ScriptState {
        fail_code: Some(104),
        ..ScriptState::default()
    }));
    let conn = ScriptConn::new(state);
    let mut d = Display::new(conn, ByteOrder::Little);
    let r = d.wait();
    assert!(matches!(r, Err(CoreError::Transport(IoFault { code: 104 }))));
}

#[test]
fn short_buffer_is_malformed() {
    let mut d = Display::new((), ByteOrder::Little);
    let r = d.process_bytes(vec![0u8; 10]);
    assert!(matches!(r, Err(CoreError::Malformed)));
}

#[test]
fn generated_bit_is_ignored_for_classification() {
    // discriminator 1 with the high bit set still classifies as a reply
    let mut packet = reply_packet(3, 0, 0);
    packet[0] = 0x81;
    let (mut d, _state) = display_over(packet.clone());
    d.expect_reply(3, flags());
    assert!(d.wait().is_ok());
    assert_eq!(d.take_reply(3), Some(packet));
}

#[test]
fn wait_processes_replies_for_older_wire_values_after_wraparound() {
    // last issued logical sequence 65538; a reply whose wire value reads 2
    // is attributed to it
    let packet = reply_packet(2, 0, 0);
    let (mut d, _state) = display_over(packet.clone());
    d.expect_reply(65538, flags());
    assert!(d.wait().is_ok());
    assert!(d.has_reply(65538));
    assert_eq!(d.take_reply(65538), Some(packet));
}

#[test]
fn empty_data_may_be_sent() {
    let state = Rc::new(RefCell::new(ScriptState::default()));
    let mut conn = ScriptConn::new(state.clone());
    let mut fds: Vec<Fd> = Vec::new();
    assert!(send_packet(&mut conn, &[], &mut fds).is_ok());
    assert!(state.borrow().sent.is_empty());
}

#[test]
fn a_second_reply_under_the_same_key_replaces_the_first() {
    let first = reply_packet(9, 0, 0x11);
    let second = reply_packet(9, 0, 0x22);
    let mut stream = first;
    stream.extend_from_slice(&second);
    let (mut d, _state) = display_over(stream);
    d.expect_reply(9, flags());
    assert!(d.wait().is_ok());
    assert!(d.wait().is_ok());
    assert_eq!(d.take_reply(9), Some(second));
}

#[test]
fn big_endian_headers_decode_with_the_negotiated_order() {
    // a reply for sequence 0x0102 with one additional unit, big-endian
    let mut packet = vec![0u8; 36];
    packet[0] = 1;
    packet[2] = 0x01;
    packet[3] = 0x02;
    packet[7] = 1; // bytes 4..8 hold 1 in big-endian
    let state = Rc::new(RefCell::new(ScriptState {
        incoming: packet.clone(),
        ..ScriptState::default()
    }));
    let conn = ScriptConn::new(state.clone());
    let mut d = Display::new(conn, ByteOrder::Big);
    d.expect_reply(0x0102, flags());
    assert!(d.wait().is_ok());
    assert_eq!(state.borrow().read_sizes, vec![32, 4]);
    assert_eq!(d.take_reply(0x0102), Some(packet));
}

#[test]
fn received_descriptors_are_kept_by_the_session() {
    let packet = base_packet(5, 0);
    let state = Rc::new(RefCell::new(ScriptState {
        incoming: packet,
        ancillary: vec![Ancillary::Rights(vec![10, 11])],
        ..ScriptState::default()
    }));
    let conn = ScriptConn::new(state);
    let mut d = Display::new(conn, ByteOrder::Little);
    assert_eq!(d.fd_count(), 0);
    assert!(d.wait().is_ok());
    assert_eq!(d.fd_count(), 2);
}
