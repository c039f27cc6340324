use std::cell::RefCell;
use std::collections::VecDeque;
use std::io;
use std::rc::Rc;
use taskstats::netlink::{
    encode_request, nla, nlmsg, received_prefix, send_progress, Error, GenNlMsg, Netlink, NlAttrs,
    NlSocket, ProtocolFault, SendProgress,
};

const NLMSG_TYPE: u16 = 32;
const GENL_CMD: u8 = 3;
const NLA_TYPE: u16 = 17;
const PID: u32 = 1234;
const PAYLOAD: &'static str = "Hello";

/// Stands in for a socket: records what is sent, hands out queued replies,
/// and accepts at most `chunk` bytes per write.
struct FakeSocket {
    sent: Rc<RefCell<Vec<Vec<u8>>>>,
    replies: Rc<RefCell<VecDeque<Vec<u8>>>>,
    chunk: usize,
}

impl NlSocket for FakeSocket {
    type Addr = ();

    fn send_to(&self, buf: &[u8], _addr: &Self::Addr) -> io::Result<usize> {
        let n = buf.len().min(self.chunk);
        self.sent.borrow_mut().push(buf[..n].to_vec());
        Ok(n)
    }

    fn recv(&self, buf: &mut [u8]) -> io::Result<usize> {
        let reply = self.replies.borrow_mut().pop_front().expect("no reply queued");
        let n = reply.len().min(buf.len());
        buf[..n].copy_from_slice(&reply[..n]);
        Ok(reply.len())
    }

    fn set_rx_buf_sz(&self, _size: usize) -> io::Result<()> {
        Ok(())
    }

    fn get_rx_buf_sz(&self) -> io::Result<usize> {
        Ok(0)
    }
}

struct Harness {
    sent: Rc<RefCell<Vec<Vec<u8>>>>,
    replies: Rc<RefCell<VecDeque<Vec<u8>>>>,
    nl: Netlink<FakeSocket>,
}

fn harness(chunk: usize) -> Harness {
    let sent = Rc::new(RefCell::new(Vec::new()));
    let replies = Rc::new(RefCell::new(VecDeque::new()));
    let sock = FakeSocket { sent: sent.clone(), replies: replies.clone(), chunk };
    Harness { sent, replies, nl: Netlink::new(sock, (), PID) }
}

fn u16_at(b: &[u8], off: usize) -> u16 {
    u16::from_ne_bytes([b[off], b[off + 1]])
}

fn u32_at(b: &[u8], off: usize) -> u32 {
    u32::from_ne_bytes([b[off], b[off + 1], b[off + 2], b[off + 3]])
}

fn message(nlmsg_type: u16, cmd: u8, payload: &[u8]) -> Vec<u8> {
    let len = nlmsg::HDRLEN + nlmsg::GENL_HDRLEN + payload.len();
    let mut m = Vec::new();
    m.extend_from_slice(&(len as u32).to_ne_bytes());
    m.extend_from_slice(&nlmsg_type.to_ne_bytes());
    m.extend_from_slice(&0u16.to_ne_bytes());
    m.extend_from_slice(&0u32.to_ne_bytes());
    m.extend_from_slice(&PID.to_ne_bytes());
    m.extend_from_slice(&[cmd, 1, 0, 0]);
    m.extend_from_slice(payload);
    m
}

#[test]
fn test_send_cmd() {
    let h = harness(usize::MAX);
    h.nl.send_cmd(NLMSG_TYPE, GENL_CMD, NLA_TYPE, PAYLOAD.as_bytes()).unwrap();
    let buf = h.sent.borrow()[0].clone();
    let size = buf.len();

    let expect_size =
        nlmsg::HDRLEN + nlmsg::GENL_HDRLEN + nla::HDRLEN + nla::align(PAYLOAD.as_bytes().len());
    assert_eq!(expect_size, size);
    assert_eq!(expect_size, u32_at(&buf, 0) as usize);
    assert_eq!(NLMSG_TYPE, u16_at(&buf, 4));
    assert_eq!(PID, u32_at(&buf, 12));
    assert_eq!(GENL_CMD, buf[nlmsg::HDRLEN]);
    let start = nlmsg::HDRLEN + nlmsg::GENL_HDRLEN + nla::HDRLEN;
    assert_eq!(PAYLOAD.as_bytes(), &buf[start..start + PAYLOAD.len()]);
}

#[test]
fn test_recv_response() {
    let h = harness(usize::MAX);
    let mut buf = [0u8; 256];
    let mut pos = 0;
    let nlmsg_len = nlmsg::HDRLEN + nlmsg::GENL_HDRLEN + PAYLOAD.len();
    buf[0..4].copy_from_slice(&(nlmsg_len as u32).to_ne_bytes());
    buf[4..6].copy_from_slice(&NLMSG_TYPE.to_ne_bytes());
    buf[12..16].copy_from_slice(&PID.to_ne_bytes());
    pos += nlmsg::HDRLEN;
    buf[pos] = GENL_CMD;
    buf[pos + 1] = 0x1;
    pos += nlmsg::GENL_HDRLEN;
    buf[pos..pos + PAYLOAD.len()].copy_from_slice(PAYLOAD.as_bytes());
    pos += PAYLOAD.len();
    h.replies.borrow_mut().push_back(buf[..pos].to_vec());

    let resp = h.nl.recv_response().unwrap();
    assert_eq!(nlmsg_len as u32, resp.nlmsg_header.nlmsg_len);
    assert_eq!(NLMSG_TYPE, resp.nlmsg_header.nlmsg_type);
    assert_eq!(PID, resp.nlmsg_header.nlmsg_pid);
    assert_eq!(GENL_CMD, resp.genlmsg_header.cmd);
    assert_eq!(PAYLOAD.as_bytes(), &resp.buf[..PAYLOAD.len()]);
}

#[test]
fn test_nlpayload() {
    let n: u32 = 1234;
    let bytes = n.to_ne_bytes();
    let mut attr = Vec::new();
    attr.extend_from_slice(&((nla::HDRLEN + 4) as u16).to_ne_bytes());
    attr.extend_from_slice(&0u16.to_ne_bytes());
    attr.extend_from_slice(&bytes);
    let mut it = NlAttrs::new(&attr);
    let m = it.next().unwrap();
    assert_eq!(std::mem::size_of::<u32>(), m.payload_len());
    assert_eq!(n, m.payload_as_u32());
}

#[test]
fn test_nlpayload_nlattrs() {
    let mut buf = [0u8; 256];

    fn add_na(buf: &mut [u8], pos: &mut usize, val: char) {
        let len = nla::align(nla::HDRLEN + std::mem::size_of::<char>());
        buf[*pos..*pos + 2].copy_from_slice(&(len as u16).to_ne_bytes());
        buf[*pos + 2..*pos + 4].copy_from_slice(&0u16.to_ne_bytes());
        buf[*pos + nla::HDRLEN..*pos + nla::HDRLEN + 4].copy_from_slice(&(val as u32).to_ne_bytes());
        *pos += len;
    }

    let outer_len =
        nla::align(nla::HDRLEN + nla::align(nla::HDRLEN + std::mem::size_of::<char>()) * 3);
    buf[0..2].copy_from_slice(&(outer_len as u16).to_ne_bytes());

    let mut pos = nla::HDRLEN;
    add_na(&mut buf, &mut pos, 'a');
    add_na(&mut buf, &mut pos, 'b');
    add_na(&mut buf, &mut pos, 'c');

    let mut top = NlAttrs::new(&buf);
    let outer = top.next().unwrap();
    let mut iter = outer.payload_as_nlattrs();
    assert_eq!(Some('a' as u8), iter.next().map(|x| x.payload()[0]));
    assert_eq!(Some('b' as u8), iter.next().map(|x| x.payload()[0]));
    assert_eq!(Some('c' as u8), iter.next().map(|x| x.payload()[0]));
    assert_eq!(None, iter.next().map(|x| x.payload()[0]));
}

#[test]
fn test_gennlmsg_payload() {
    const LEN: usize = 3;
    let total = nlmsg::align(nlmsg::HDRLEN + nlmsg::GENL_HDRLEN + LEN);
    let mut bytes = vec![0u8; total];
    bytes[0..4].copy_from_slice(&(total as u32).to_ne_bytes());
    let msg = GenNlMsg::parse(&bytes).unwrap();
    let p = msg.payload();
    assert_eq!(msg.buf.as_ptr(), p.as_ptr());
    assert_eq!(nlmsg::align(LEN), p.len());
}

#[test]
fn test_nlattr_payload() {
    const LEN: usize = 3;
    let mut bytes = vec![0u8; nla::align(nla::HDRLEN + LEN)];
    bytes[0..2].copy_from_slice(&(nla::align(nla::HDRLEN + LEN) as u16).to_ne_bytes());
    let mut it = NlAttrs::new(&bytes);
    let nlattr = it.next().unwrap();
    let p = nlattr.payload();
    let expect_p = bytes[nla::HDRLEN..].as_ptr();
    assert_eq!(expect_p, p.as_ptr());
    assert_eq!(nlmsg::align(LEN), p.len());
}

#[test]
fn alignment_of_next_attribute() {
    let expected = [0usize, 4, 4, 4, 4, 8];
    for (l, extra) in expected.iter().enumerate() {
        assert_eq!(nla::HDRLEN + extra, nla::align(nla::HDRLEN + l));
    }
    // Two attributes with a 5-byte value between them: the second starts 12
    // bytes in.
    let mut buf = Vec::new();
    buf.extend_from_slice(&9u16.to_ne_bytes());
    buf.extend_from_slice(&7u16.to_ne_bytes());
    buf.extend_from_slice(b"abcde\0\0\0");
    buf.extend_from_slice(&6u16.to_ne_bytes());
    buf.extend_from_slice(&8u16.to_ne_bytes());
    buf.extend_from_slice(b"xy");
    let mut it = NlAttrs::new(&buf);
    let first = it.next().unwrap();
    assert_eq!(b"abcde", first.payload());
    let second = it.next().unwrap();
    assert_eq!(8, second.header.nla_type);
    assert_eq!(b"xy", second.payload());
    assert!(it.next().is_none());
}

#[test]
fn walk_ends_after_exactly_the_packed_attributes() {
    let mut buf = Vec::new();
    for i in 0..5u16 {
        let value = vec![i as u8; i as usize];
        let len = nla::HDRLEN + value.len();
        buf.extend_from_slice(&(len as u16).to_ne_bytes());
        buf.extend_from_slice(&(100 + i).to_ne_bytes());
        buf.extend_from_slice(&value);
        buf.resize(buf.len() + nla::align(len) - len, 0);
    }
    let mut it = NlAttrs::new(&buf);
    let mut count = 0u16;
    while let Some(a) = it.next() {
        assert_eq!(100 + count, a.header.nla_type);
        assert_eq!(count as usize, a.payload_len());
        count += 1;
    }
    assert_eq!(5, count);
}

#[test]
fn walk_stops_at_malformed_length() {
    // A length shorter than a header, then one running past the buffer.
    let short = [2u8, 0, 1, 0, 9, 9, 9, 9];
    assert!(NlAttrs::new(&short).next().is_none());
    let long = [40u8, 0, 1, 0, 9, 9, 9, 9];
    assert!(NlAttrs::new(&long).next().is_none());
    let tiny = [8u8, 0, 1];
    assert!(NlAttrs::new(&tiny).next().is_none());
}

#[test]
fn request_round_trip() {
    let data = b"TASKSTATS\0";
    let bytes = encode_request(0x10, 3, 2, data, 77).unwrap();
    assert_eq!(nlmsg::HDRLEN + nlmsg::GENL_HDRLEN + 16, bytes.len());
    let msg = GenNlMsg::parse(&bytes).unwrap();
    assert_eq!(0x10, msg.nlmsg_header.nlmsg_type);
    assert_eq!(1, msg.nlmsg_header.nlmsg_flags);
    assert_eq!(77, msg.nlmsg_header.nlmsg_pid);
    assert_eq!(3, msg.genlmsg_header.cmd);
    assert_eq!(1, msg.genlmsg_header.version);
    let mut it = msg.payload_as_nlattrs();
    let a = it.next().unwrap();
    assert_eq!(2, a.header.nla_type);
    assert_eq!(14, a.header.nla_len);
    assert_eq!(&data[..], a.payload());
    assert!(it.next().is_none());
}

#[test]
fn oversized_request_is_rejected() {
    let fits = vec![7u8; 1020];
    assert!(encode_request(1, 1, 1, &fits, 1).is_ok());
    let too_big = vec![7u8; 1021];
    let r = encode_request(1, 1, 1, &too_big, 1);
    assert!(matches!(r, Err(Error::Protocol(ProtocolFault::OversizedRequest { value_len: 1021 }))));
    let h = harness(usize::MAX);
    let r = h.nl.send_cmd(1, 1, 1, &too_big);
    assert!(matches!(r, Err(Error::Protocol(ProtocolFault::OversizedRequest { .. }))));
    assert!(h.sent.borrow().is_empty());
}

#[test]
fn partial_writes_are_resumed() {
    let h = harness(7);
    h.nl.send_cmd(NLMSG_TYPE, GENL_CMD, NLA_TYPE, PAYLOAD.as_bytes()).unwrap();
    let chunks = h.sent.borrow().clone();
    assert_eq!(5, chunks.len());
    let joined: Vec<u8> = chunks.concat();
    let whole = encode_request(NLMSG_TYPE, GENL_CMD, NLA_TYPE, PAYLOAD.as_bytes(), PID).unwrap();
    assert_eq!(whole, joined);
}

#[test]
fn zero_length_write_is_an_io_error() {
    let h = harness(0);
    let r = h.nl.send_cmd(NLMSG_TYPE, GENL_CMD, NLA_TYPE, PAYLOAD.as_bytes());
    match r {
        Err(Error::SocketIo(e)) => assert_eq!(io::ErrorKind::WriteZero, e.kind()),
        other => panic!("unexpected {:?}", other),
    }
}

#[test]
fn framing_faults() {
    let r = GenNlMsg::parse(&[0u8; 10]);
    assert!(matches!(r, Err(Error::Protocol(ProtocolFault::Truncated { recv_size: 10 }))));

    let mut m = message(NLMSG_TYPE, GENL_CMD, b"abcd");
    m[0..4].copy_from_slice(&100u32.to_ne_bytes());
    let r = GenNlMsg::parse(&m);
    assert!(matches!(
        r,
        Err(Error::Protocol(ProtocolFault::LengthMismatch { header_len: 100, recv_size: 24 }))
    ));

    m[0..4].copy_from_slice(&8u32.to_ne_bytes());
    let r = GenNlMsg::parse(&m);
    assert!(matches!(
        r,
        Err(Error::Protocol(ProtocolFault::LengthMismatch { header_len: 8, recv_size: 24 }))
    ));

    let mut big = message(NLMSG_TYPE, GENL_CMD, &vec![0u8; 1100]);
    let len = big.len() as u32;
    big[0..4].copy_from_slice(&len.to_ne_bytes());
    let r = GenNlMsg::parse(&big);
    assert!(matches!(r, Err(Error::Protocol(ProtocolFault::TooLarge { header_len: 1120 }))));

    let err = message(2, 0, b"abcd");
    assert!(matches!(GenNlMsg::parse(&err), Err(Error::ErrorResponse)));
}

#[test]
fn payload_is_trimmed_to_declared_length() {
    let mut m = message(NLMSG_TYPE, GENL_CMD, b"abcdefgh");
    m[0..4].copy_from_slice(&24u32.to_ne_bytes());
    let msg = GenNlMsg::parse(&m).unwrap();
    assert_eq!(b"abcd", msg.payload());
}

#[test]
fn overrun_receive_is_rejected() {
    let h = harness(usize::MAX);
    h.replies.borrow_mut().push_back(vec![0u8; 2000]);
    let r = h.nl.recv_response();
    assert!(matches!(r, Err(Error::Protocol(ProtocolFault::Overrun { recv_size: 2000 }))));
}

#[test]
fn send_progress_steps() {
    assert!(matches!(send_progress(0, 32, Ok(7)), SendProgress::Resume(7)));
    assert!(matches!(send_progress(28, 32, Ok(4)), SendProgress::Sent));
    assert!(matches!(send_progress(28, 32, Ok(9)), SendProgress::Sent));
    match send_progress(0, 32, Ok(0)) {
        SendProgress::Failed(Error::SocketIo(e)) => assert_eq!(io::ErrorKind::WriteZero, e.kind()),
        other => panic!("unexpected {:?}", other),
    }
    match send_progress(0, 32, Err(io::Error::from(io::ErrorKind::BrokenPipe))) {
        SendProgress::Failed(Error::SocketIo(e)) => assert_eq!(io::ErrorKind::BrokenPipe, e.kind()),
        other => panic!("unexpected {:?}", other),
    }
}

#[test]
fn received_prefix_cases() {
    let buf = [1u8, 2, 3, 4];
    assert_eq!(vec![1u8, 2], received_prefix(&buf, Ok(2)).unwrap());
    assert!(matches!(
        received_prefix(&buf, Ok(5)),
        Err(Error::Protocol(ProtocolFault::Overrun { recv_size: 5 }))
    ));
    match received_prefix(&buf, Err(io::Error::from(io::ErrorKind::Interrupted))) {
        Err(Error::SocketIo(e)) => assert_eq!(io::ErrorKind::Interrupted, e.kind()),
        other => panic!("unexpected {:?}", other),
    }
}

#[test]
fn socket_error_ends_the_send() {
    struct Failing;
    impl NlSocket for Failing {
        type Addr = ();
        fn send_to(&self, _buf: &[u8], _addr: &()) -> io::Result<usize> {
            Err(io::Error::from(io::ErrorKind::ConnectionRefused))
        }
        fn recv(&self, _buf: &mut [u8]) -> io::Result<usize> {
            Err(io::Error::from(io::ErrorKind::ConnectionRefused))
        }
        fn set_rx_buf_sz(&self, _size: usize) -> io::Result<()> {
            Ok(())
        }
        fn get_rx_buf_sz(&self) -> io::Result<usize> {
            Ok(0)
        }
    }
    let nl = Netlink::new(Failing, (), PID);
    match nl.send_cmd(NLMSG_TYPE, GENL_CMD, NLA_TYPE, PAYLOAD.as_bytes()) {
        Err(Error::SocketIo(e)) => assert_eq!(io::ErrorKind::ConnectionRefused, e.kind()),
        other => panic!("unexpected {:?}", other),
    }
    assert!(matches!(nl.recv_response(), Err(Error::SocketIo(_))));
}
