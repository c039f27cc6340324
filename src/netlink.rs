//! Generic netlink framing: request encoding, response validation and the
//! attribute walk, over a socket reached through [`NlSocket`].
use vstd::prelude::*;
use crate::wire::{byte_span, le_at, le_bytes, lemma_le_bytes_len, lemma_le_round_trip, push_le, read_le};

pub mod nla;
pub mod nlmsg;

verus! {

/// Room for attributes in one message, after both headers.
pub const MAX_MESSAGE_SIZE: usize = 1024;

/// Capacity of the receive buffer: both headers and the attribute room.
pub const RECV_CAPACITY: usize = 1044;

/// Message type the kernel uses to report a failed request.
pub const NLMSG_ERROR: u16 = 2;

/// Header flag that marks a message as a request.
pub const NLM_F_REQUEST: u16 = 1;

/// Generic netlink protocol version sent with every request.
pub const GENL_VERSION: u8 = 1;

#[verifier::external_type_specification]
#[verifier::external_body]
pub struct ExIoError(std::io::Error);

/// How a received message failed structural validation.
#[derive(Debug, Clone, Copy, PartialEq, Eq)]
pub enum ProtocolFault {
    /// Fewer bytes arrived than one message header.
    Truncated { recv_size: usize },
    /// The declared length is shorter than a header or longer than what
    /// arrived.
    LengthMismatch { header_len: u32, recv_size: usize },
    /// The declared length exceeds the receive buffer's capacity.
    TooLarge { header_len: u32 },
    /// An attribute is too short for the value it is read as.
    ShortAttribute { len: usize, needed: usize },
    /// The socket reported more bytes than the receive buffer holds.
    Overrun { recv_size: usize },
    /// A request attribute does not fit the send buffer.
    OversizedRequest { value_len: usize },
}

/// Errors of the netlink layer.
#[derive(Debug)]
pub enum Error {
    /// I/O with the netlink socket failed.
    SocketIo(std::io::Error),
    /// Data read from the socket is corrupt.
    Protocol(ProtocolFault),
    /// The kernel answered with an error message.
    ErrorResponse,
}

pub type Result<T> = std::result::Result<T, Error>;

/// Netlink message header (`struct nlmsghdr`).
#[derive(Debug, Clone, Copy, PartialEq, Eq)]
pub struct NlMsgHdr {
    pub nlmsg_len: u32,
    pub nlmsg_type: u16,
    pub nlmsg_flags: u16,
    pub nlmsg_seq: u32,
    pub nlmsg_pid: u32,
}

/// Generic netlink header (`struct genlmsghdr`).
#[derive(Debug, Clone, Copy, PartialEq, Eq)]
pub struct GenlMsgHdr {
    pub cmd: u8,
    pub version: u8,
    pub reserved: u16,
}

/// Attribute header (`struct nlattr`).
#[derive(Debug, Clone, Copy, PartialEq, Eq)]
pub struct NlAttrHdr {
    pub nla_len: u16,
    pub nla_type: u16,
}

/// `n` zero bytes.
pub open spec fn zeros(n: nat) -> Seq<u8> {
    Seq::new(n, |i: int| 0u8)
}

/// The attribute length field of a request carrying `data_len` value bytes.
pub open spec fn request_attr_len(data_len: nat) -> nat {
    (nla::HDRLEN + data_len) as nat
}

/// The declared length of a request carrying `data_len` value bytes.
pub open spec fn request_len(data_len: nat) -> nat {
    (nlmsg::HDRLEN + nlmsg::GENL_HDRLEN + nla::spec_align(request_attr_len(data_len) as int)) as nat
}

/// Whether a value of `data_len` bytes fits in one request.
pub open spec fn request_fits(data_len: nat) -> bool {
    nla::spec_align(request_attr_len(data_len) as int) <= MAX_MESSAGE_SIZE
}

/// The bytes of a request: message header, generic header, one attribute
/// and the padding that aligns it.
pub open spec fn request_bytes(
    nlmsg_type: u16,
    genl_cmd: u8,
    nla_type: u16,
    data: Seq<u8>,
    pid: u32,
) -> Seq<u8> {
    let attr_len = request_attr_len(data.len());
    le_bytes(request_len(data.len()), 4) + le_bytes(nlmsg_type as nat, 2) + le_bytes(
        NLM_F_REQUEST as nat,
        2,
    ) + le_bytes(0, 4) + le_bytes(pid as nat, 4) + seq![genl_cmd, GENL_VERSION] + le_bytes(0, 2)
        + le_bytes(attr_len, 2) + le_bytes(nla_type as nat, 2) + data + zeros(
        (nla::spec_align(attr_len as int) - attr_len) as nat,
    )
}

/// Encodes a request of type `nlmsg_type` with generic command `genl_cmd`
/// and one attribute `(nla_type, nla_data)`, sent by process `pid`.
///
/// A value too large for the send buffer is rejected, not truncated.
pub fn encode_request(
    nlmsg_type: u16,
    genl_cmd: u8,
    nla_type: u16,
    nla_data: &[u8],
    pid: u32,
) -> (r: Result<Vec<u8>>)
    ensures
        request_fits(nla_data@.len()) ==> (r matches Ok(v) && v@ == request_bytes(
            nlmsg_type,
            genl_cmd,
            nla_type,
            nla_data@,
            pid,
        )),
        !request_fits(nla_data@.len()) ==> (r matches Err(
            Error::Protocol(ProtocolFault::OversizedRequest { value_len }),
        ) && value_len == nla_data@.len()),
{
    let data_len = nla_data.len();
    if data_len > MAX_MESSAGE_SIZE {
        return Err(Error::Protocol(ProtocolFault::OversizedRequest { value_len: data_len }));
    }
    let attr_len = nla::HDRLEN + data_len;
    let aligned = nla::align(attr_len);
    if aligned > MAX_MESSAGE_SIZE {
        return Err(Error::Protocol(ProtocolFault::OversizedRequest { value_len: data_len }));
    }
    let msg_len = nlmsg::HDRLEN + nlmsg::GENL_HDRLEN + aligned;
    let mut out: Vec<u8> = Vec::new();
    push_le(&mut out, msg_len as u64, 4);
    push_le(&mut out, nlmsg_type as u64, 2);
    push_le(&mut out, NLM_F_REQUEST as u64, 2);
    push_le(&mut out, 0, 4);
    push_le(&mut out, pid as u64, 4);
    out.push(genl_cmd);
    out.push(GENL_VERSION);
    push_le(&mut out, 0, 2);
    push_le(&mut out, attr_len as u64, 2);
    push_le(&mut out, nla_type as u64, 2);
    let ghost head = out@;
    let mut i: usize = 0;
    while i < data_len
        invariant
            data_len == nla_data@.len(),
            i <= data_len,
            out@ == head + nla_data@.subrange(0, i as int),
        decreases data_len - i,
    {
        out.push(nla_data[i]);
        i = i + 1;
        proof {
            assert(nla_data@.subrange(0, i as int) =~= nla_data@.subrange(0, i - 1) + seq![nla_data@[i - 1]]);
        }
    }
    let ghost body = out@;
    let mut k: usize = attr_len;
    while k < aligned
        invariant
            attr_len <= k <= aligned,
            out@ == body + zeros((k - attr_len) as nat),
        decreases aligned - k,
    {
        out.push(0);
        k = k + 1;
        proof {
            assert(body + zeros((k - attr_len) as nat) =~= body + zeros((k - 1 - attr_len) as nat) + seq![0u8]);
        }
    }
    proof {
        assert(nla_data@.subrange(0, data_len as int) =~= nla_data@);
        assert(out@ =~= request_bytes(nlmsg_type, genl_cmd, nla_type, nla_data@, pid));
    }
    Ok(out)
}


/// The length a received message declares in its header.
pub open spec fn declared_len(s: Seq<u8>) -> nat {
    le_at(s, 0, 4)
}

/// The message header held by the first sixteen bytes of `s`.
pub open spec fn header_of(s: Seq<u8>) -> NlMsgHdr {
    NlMsgHdr {
        nlmsg_len: le_at(s, 0, 4) as u32,
        nlmsg_type: le_at(s, 4, 2) as u16,
        nlmsg_flags: le_at(s, 6, 2) as u16,
        nlmsg_seq: le_at(s, 8, 4) as u32,
        nlmsg_pid: le_at(s, 12, 4) as u32,
    }
}

/// The generic header that follows the message header, or an all-zero one
/// where fewer bytes arrived.
pub open spec fn genl_header_of(s: Seq<u8>) -> GenlMsgHdr {
    if s.len() >= nlmsg::HDRLEN + nlmsg::GENL_HDRLEN {
        GenlMsgHdr { cmd: s[16], version: s[17], reserved: le_at(s, 18, 2) as u16 }
    } else {
        GenlMsgHdr { cmd: 0, version: 0, reserved: 0 }
    }
}

/// The attribute region of a message: what follows both headers, up to the
/// declared length.
pub open spec fn payload_of(s: Seq<u8>) -> Seq<u8> {
    if declared_len(s) >= nlmsg::HDRLEN + nlmsg::GENL_HDRLEN {
        s.subrange((nlmsg::HDRLEN + nlmsg::GENL_HDRLEN) as int, declared_len(s) as int)
    } else {
        seq![]
    }
}

/// What validating the received bytes `s` yields: the fault found, or `None`
/// where the message is well framed.
pub open spec fn framing_fault(s: Seq<u8>) -> Option<ProtocolFault> {
    if s.len() < nlmsg::HDRLEN {
        Some(ProtocolFault::Truncated { recv_size: s.len() as usize })
    } else if !nlmsg::spec_is_valid(declared_len(s), s.len()) {
        Some(ProtocolFault::LengthMismatch { header_len: declared_len(s) as u32, recv_size: s.len() as usize })
    } else if declared_len(s) > RECV_CAPACITY {
        Some(ProtocolFault::TooLarge { header_len: declared_len(s) as u32 })
    } else {
        None
    }
}

/// A received generic netlink message: both headers and the attribute region.
#[derive(Debug)]
pub struct GenNlMsg {
    pub nlmsg_header: NlMsgHdr,
    pub genlmsg_header: GenlMsgHdr,
    /// The attribute region, trimmed to the declared length.
    pub buf: Vec<u8>,
}

impl GenNlMsg {
    /// Validates the bytes of one received message and exposes it.
    ///
    /// The message is rejected when fewer bytes than a header arrived, when
    /// its declared length is shorter than a header, longer than what arrived
    /// or longer than the receive buffer, and when its type is the error
    /// type.
    pub fn parse(received: &[u8]) -> (r: Result<GenNlMsg>)
        ensures
            framing_fault(received@) matches Some(f) ==> r matches Err(Error::Protocol(g)) && g == f,
            framing_fault(received@) is None && header_of(received@).nlmsg_type == NLMSG_ERROR
                ==> r matches Err(Error::ErrorResponse),
            framing_fault(received@) is None && header_of(received@).nlmsg_type != NLMSG_ERROR
                ==> (r matches Ok(m) && m.nlmsg_header == header_of(received@) && m.genlmsg_header
                == genl_header_of(received@) && m.buf@ == payload_of(received@)),
    {
        let recv_size = received.len();
        if recv_size < nlmsg::HDRLEN {
            return Err(Error::Protocol(ProtocolFault::Truncated { recv_size }));
        }
        let nlmsg_header = NlMsgHdr {
            nlmsg_len: read_le(received, 0, 4) as u32,
            nlmsg_type: read_le(received, 4, 2) as u16,
            nlmsg_flags: read_le(received, 6, 2) as u16,
            nlmsg_seq: read_le(received, 8, 4) as u32,
            nlmsg_pid: read_le(received, 12, 4) as u32,
        };
        proof {
            crate::wire::lemma_le_value_bound(received@.subrange(0, 4));
            crate::wire::lemma_le_value_bound(received@.subrange(4, 6));
            crate::wire::lemma_le_value_bound(received@.subrange(6, 8));
            crate::wire::lemma_le_value_bound(received@.subrange(8, 12));
            crate::wire::lemma_le_value_bound(received@.subrange(12, 16));
            reveal_with_fuel(crate::wire::byte_span, 5);
        }
        if !nlmsg::is_valid(&nlmsg_header, recv_size) {
            return Err(Error::Protocol(ProtocolFault::LengthMismatch {
                header_len: nlmsg_header.nlmsg_len,
                recv_size,
            }));
        }
        let declared = nlmsg_header.nlmsg_len as usize;
        if declared > RECV_CAPACITY {
            return Err(Error::Protocol(ProtocolFault::TooLarge { header_len: nlmsg_header.nlmsg_len }));
        }
        if nlmsg_header.nlmsg_type == NLMSG_ERROR {
            return Err(Error::ErrorResponse);
        }
        let genlmsg_header = if recv_size >= nlmsg::HDRLEN + nlmsg::GENL_HDRLEN {
            GenlMsgHdr {
                cmd: received[16],
                version: received[17],
                reserved: read_le(received, 18, 2) as u16,
            }
        } else {
            GenlMsgHdr { cmd: 0, version: 0, reserved: 0 }
        };
        proof {
            if recv_size >= 20 {
                crate::wire::lemma_le_value_bound(received@.subrange(18, 20));
            }
        }
        let start = nlmsg::HDRLEN + nlmsg::GENL_HDRLEN;
        let mut buf: Vec<u8> = Vec::new();
        if declared >= start {
            let mut i: usize = start;
            while i < declared
                invariant
                    start <= i <= declared,
                    declared <= received@.len(),
                    buf@ == received@.subrange(start as int, i as int),
                decreases declared - i,
            {
                buf.push(received[i]);
                i = i + 1;
                proof {
                    assert(received@.subrange(start as int, i as int) =~= received@.subrange(
                        start as int,
                        i - 1,
                    ) + seq![received@[i - 1]]);
                }
            }
        }
        proof {
            if declared < start {
                assert(buf@ =~= payload_of(received@));
            }
        }
        Ok(GenNlMsg { nlmsg_header, genlmsg_header, buf })
    }

    /// The attribute region.
    pub fn payload(&self) -> (r: &[u8])
        ensures
            r@ == self.buf@,
    {
        self.buf.as_slice()
    }

    /// Length of the attribute region.
    pub fn payload_len(&self) -> (r: usize)
        ensures
            r == self.buf@.len(),
    {
        self.buf.len()
    }

    /// The attributes of the attribute region, in order.
    pub fn payload_as_nlattrs(&self) -> (r: NlAttrs<'_>)
        ensures
            r.wf(),
            r.remaining() == parse_attrs(self.buf@),
    {
        NlAttrs::new(self.buf.as_slice())
    }
}

/// The attributes packed in `s`, in order, each as its type and value.
///
/// Each attribute starts with a 16-bit length, which covers the header and
/// the value but not the padding, and a 16-bit type; the next one starts at
/// that length rounded up to four bytes. The walk ends where fewer bytes
/// than a header remain, or at an attribute whose length is shorter than a
/// header or runs past the end of `s`.
pub open spec fn parse_attrs(s: Seq<u8>) -> Seq<(u16, Seq<u8>)>
    decreases s.len(),
{
    if s.len() < nla::HDRLEN {
        seq![]
    } else {
        let len = le_at(s, 0, 2) as int;
        if len < nla::HDRLEN || len > s.len() {
            seq![]
        } else {
            let next = if nla::spec_align(len) <= s.len() {
                nla::spec_align(len)
            } else {
                s.len() as int
            };
            seq![(le_at(s, 2, 2) as u16, s.subrange(nla::HDRLEN as int, len))] + parse_attrs(
                s.subrange(next, s.len() as int),
            )
        }
    }
}

/// One attribute: its header and its value.
pub struct NlAttr<'a> {
    pub header: NlAttrHdr,
    pub value: &'a [u8],
}

impl<'a> NlAttr<'a> {
    /// The attribute's type and value.
    pub open spec fn view(&self) -> (u16, Seq<u8>) {
        (self.header.nla_type, self.value@)
    }

    /// The attribute's value.
    pub fn payload(&self) -> (r: &'a [u8])
        ensures
            r@ == self.value@,
    {
        self.value
    }

    /// Length of the attribute's value.
    pub fn payload_len(&self) -> (r: usize)
        ensures
            r == self.value@.len(),
    {
        self.value.len()
    }

    /// The value read as a 16-bit integer. The value must hold one.
    pub fn payload_as_u16(&self) -> (r: u16)
        requires
            self.value@.len() >= 2,
        ensures
            r == le_at(self.value@, 0, 2),
    {
        proof {
            crate::wire::lemma_le_value_bound(self.value@.subrange(0, 2));
            reveal_with_fuel(crate::wire::byte_span, 3);
        }
        read_le(self.value, 0, 2) as u16
    }

    /// The value read as a 32-bit integer. The value must hold one.
    pub fn payload_as_u32(&self) -> (r: u32)
        requires
            self.value@.len() >= 4,
        ensures
            r == le_at(self.value@, 0, 4),
    {
        proof {
            crate::wire::lemma_le_value_bound(self.value@.subrange(0, 4));
            reveal_with_fuel(crate::wire::byte_span, 5);
        }
        read_le(self.value, 0, 4) as u32
    }

    /// The attributes nested in the value.
    pub fn payload_as_nlattrs(&self) -> (r: NlAttrs<'a>)
        ensures
            r.wf(),
            r.remaining() == parse_attrs(self.value@),
    {
        NlAttrs::new(self.value)
    }
}

/// A forward walk over the attributes packed in a byte buffer.
pub struct NlAttrs<'a> {
    buf: &'a [u8],
    pos: usize,
}

impl<'a> NlAttrs<'a> {
    pub closed spec fn wf(&self) -> bool {
        self.pos <= self.buf@.len()
    }

    /// The attributes not yet returned.
    pub closed spec fn remaining(&self) -> Seq<(u16, Seq<u8>)> {
        parse_attrs(self.buf@.subrange(self.pos as int, self.buf@.len() as int))
    }

    /// A walk over the attributes packed in `buf`.
    pub fn new(buf: &'a [u8]) -> (r: NlAttrs<'a>)
        ensures
            r.wf(),
            r.remaining() == parse_attrs(buf@),
    {
        proof {
            assert(buf@.subrange(0, buf@.len() as int) =~= buf@);
        }
        NlAttrs { buf, pos: 0 }
    }

    /// Returns the next attribute, or `None` once the walk has ended.
    pub fn next(&mut self) -> (r: Option<NlAttr<'a>>)
        requires
            old(self).wf(),
        ensures
            final(self).wf(),
            old(self).remaining().len() == 0 ==> r is None && final(self).remaining().len() == 0,
            old(self).remaining().len() > 0 ==> (r matches Some(a) && a.view()
                == old(self).remaining()[0] && final(self).remaining()
                == old(self).remaining().drop_first() && a.header.nla_len == a.view().1.len()
                + nla::HDRLEN),
    {
        let len = self.buf.len();
        let pos = self.pos;
        let ghost s = self.buf@.subrange(pos as int, len as int);
        if len - pos < nla::HDRLEN {
            return None;
        }
        proof {
            assert(s.subrange(0, 2) =~= self.buf@.subrange(pos as int, pos + 2));
            assert(s.subrange(2, 4) =~= self.buf@.subrange(pos + 2, pos + 4));
            crate::wire::lemma_le_value_bound(s.subrange(0, 2));
            crate::wire::lemma_le_value_bound(s.subrange(2, 4));
            reveal_with_fuel(crate::wire::byte_span, 3);
        }
        let nla_len = read_le(self.buf, pos, 2) as usize;
        let nla_type = read_le(self.buf, pos + 2, 2) as u16;
        if nla_len < nla::HDRLEN || nla_len > len - pos {
            return None;
        }
        let value = vstd::slice::slice_subrange(self.buf, pos + nla::HDRLEN, pos + nla_len);
        let step = nla::align(nla_len);
        let next = if step <= len - pos {
            step
        } else {
            len - pos
        };
        self.pos = pos + next;
        proof {
            assert(value@ =~= s.subrange(nla::HDRLEN as int, nla_len as int));
            assert(s.subrange(next as int, s.len() as int) =~= self.buf@.subrange(
                self.pos as int,
                len as int,
            ));
        }
        Some(NlAttr { header: NlAttrHdr { nla_len: nla_len as u16, nla_type }, value })
    }
}

/// Socket I/O as the transport needs it. The library's own code never opens
/// a socket: an implementation wraps a netlink socket, or stands in for one.
pub trait NlSocket {
    /// Address of the peer that requests are sent to.
    type Addr;

    /// Sends `buf` to `addr`, returning how many bytes went out.
    fn send_to(&self, buf: &[u8], addr: &Self::Addr) -> std::io::Result<usize>;

    /// Receives one message into `buf`, returning its size.
    fn recv(&self, buf: &mut [u8]) -> std::io::Result<usize>;

    /// Sets the receive buffer size (`SO_RCVBUF`).
    fn set_rx_buf_sz(&self, size: usize) -> std::io::Result<()>;

    /// The receive buffer size (`SO_RCVBUF`).
    fn get_rx_buf_sz(&self) -> std::io::Result<usize>;
}

/// Relies on `std::io::Error::from(ErrorKind::WriteZero)`: the error a
/// writer reports when the sink accepted none of the bytes offered.
#[verifier::external_body]
fn write_zero_error() -> std::io::Error {
    std::io::Error::from(std::io::ErrorKind::WriteZero)
}

/// Whether `m` is what validation exposes of some well-framed message that
/// is not an error report.
pub open spec fn is_validated(m: &GenNlMsg) -> bool {
    exists|s: Seq<u8>|
        {
            &&& framing_fault(s) is None
            &&& header_of(s).nlmsg_type != NLMSG_ERROR
            &&& m.nlmsg_header == header_of(s)
            &&& m.genlmsg_header == genl_header_of(s)
            &&& m.buf@ == payload_of(s)
        }
}

/// What validation makes of the received bytes `s`: the error the message
/// is rejected with, or `None` when its attribute region is to be read.
pub open spec fn rejection(s: Seq<u8>) -> Option<Error> {
    match framing_fault(s) {
        Some(f) => Some(Error::Protocol(f)),
        None => if header_of(s).nlmsg_type == NLMSG_ERROR {
            Some(Error::ErrorResponse)
        } else {
            None
        },
    }
}

/// Where sending a message stands after one write.
#[derive(Debug)]
pub enum SendProgress {
    /// Part of the message went out; the rest starts at this offset.
    Resume(usize),
    /// The whole message went out.
    Sent,
    /// The write failed.
    Failed(Error),
}

/// What a write of the bytes from `off` to `total` of a message leads to,
/// given what the socket reported: a partial write resumes where it ended, a
/// write of nothing and a socket error end the send.
pub fn send_progress(off: usize, total: usize, reply: std::io::Result<usize>) -> (r: SendProgress)
    requires
        off < total,
    ensures
        reply matches Err(e) ==> (r matches SendProgress::Failed(Error::SocketIo(f)) && f == e),
        reply matches Ok(n) ==> ({
            if n == 0 {
                r matches SendProgress::Failed(Error::SocketIo(_))
            } else if n < total - off {
                r == SendProgress::Resume((off + n) as usize)
            } else {
                r is Sent
            }
        }),
{
    match reply {
        Err(e) => SendProgress::Failed(Error::SocketIo(e)),
        Ok(sent) => {
            if sent == 0 {
                SendProgress::Failed(Error::SocketIo(write_zero_error()))
            } else if sent < total - off {
                SendProgress::Resume(off + sent)
            } else {
                SendProgress::Sent
            }
        },
    }
}

/// The bytes a receive into `buf` delivered, given what the socket
/// reported. A count beyond the buffer is rejected.
pub fn received_prefix(buf: &[u8], reply: std::io::Result<usize>) -> (r: Result<Vec<u8>>)
    ensures
        reply matches Err(e) ==> (r matches Err(Error::SocketIo(f)) && f == e),
        reply matches Ok(n) ==> ({
            if n <= buf@.len() {
                r matches Ok(v) && v@ == buf@.subrange(0, n as int)
            } else {
                r == Err::<Vec<u8>, Error>(Error::Protocol(ProtocolFault::Overrun { recv_size: n }))
            }
        }),
{
    match reply {
        Err(e) => Err(Error::SocketIo(e)),
        Ok(n) => {
            if n > buf.len() {
                Err(Error::Protocol(ProtocolFault::Overrun { recv_size: n }))
            } else {
                Ok(vstd::slice::slice_to_vec(vstd::slice::slice_subrange(buf, 0, n)))
            }
        },
    }
}

/// Netlink protocol endpoint for taskstats queries.
pub struct Netlink<S: NlSocket> {
    sock: S,
    remote_addr: S::Addr,
    mypid: u32,
}

impl<S: NlSocket> Netlink<S> {
    /// An endpoint that sends through `sock` to `remote_addr`, identifying
    /// itself as process `mypid`.
    pub fn new(sock: S, remote_addr: S::Addr, mypid: u32) -> (r: Netlink<S>)
        ensures
            r.pid() == mypid,
    {
        Netlink { sock, remote_addr, mypid }
    }

    /// The sender id written into every request.
    pub closed spec fn pid(&self) -> u32 {
        self.mypid
    }

    /// The sender id written into every request.
    pub fn sender_pid(&self) -> (r: u32)
        ensures
            r == self.pid(),
    {
        self.mypid
    }

    /// Sends the message `msg`. A write that sends part of it is followed by
    /// one for the rest (see [`send_progress`]), until all of it is sent or
    /// the socket fails.
    pub fn send_msg(&self, msg: &[u8]) -> (r: Result<()>)
        ensures
            r is Ok || r matches Err(Error::SocketIo(_)),
    {
        let total = msg.len();
        let mut off: usize = 0;
        while off < total
            invariant
                off <= total,
                total == msg@.len(),
            decreases total - off,
        {
            let rest = vstd::slice::slice_subrange(msg, off, total);
            let reply = self.sock.send_to(rest, &self.remote_addr);
            match send_progress(off, total, reply) {
                SendProgress::Resume(next) => {
                    off = next;
                },
                SendProgress::Sent => {
                    return Ok(());
                },
                SendProgress::Failed(e) => {
                    return Err(e);
                },
            }
        }
        Ok(())
    }

    /// Sends one request: message type `nlmsg_type`, generic command
    /// `genl_cmd`, one attribute `(nla_type, nla_data)`; the bytes sent are
    /// those of [`encode_request`].
    pub fn send_cmd(&self, nlmsg_type: u16, genl_cmd: u8, nla_type: u16, nla_data: &[u8]) -> (r:
        Result<()>)
        ensures
            !request_fits(nla_data@.len()) ==> (r matches Err(
                Error::Protocol(ProtocolFault::OversizedRequest { value_len }),
            ) && value_len == nla_data@.len()),
            request_fits(nla_data@.len()) ==> (r is Ok || r matches Err(Error::SocketIo(_))),
    {
        let msg = match encode_request(nlmsg_type, genl_cmd, nla_type, nla_data, self.mypid) {
            Ok(v) => v,
            Err(e) => return Err(e),
        };
        self.send_msg(msg.as_slice())
    }

    /// Receives one message and returns its bytes (see [`received_prefix`]).
    pub fn recv_bytes(&self) -> (r: Result<Vec<u8>>)
        ensures
            r matches Ok(v) ==> v@.len() <= RECV_CAPACITY,
            r matches Err(e) ==> (e is SocketIo || (e matches Error::Protocol(
                ProtocolFault::Overrun { recv_size },
            ) && recv_size > RECV_CAPACITY)),
    {
        let mut data = [0u8; RECV_CAPACITY];
        let reply = self.sock.recv(&mut data);
        received_prefix(data.as_slice(), reply)
    }

    /// Receives one message and validates it (see [`GenNlMsg::parse`]).
    pub fn recv_response(&self) -> (r: Result<GenNlMsg>)
        ensures
            r matches Ok(m) ==> is_validated(&m),
            r matches Err(e) ==> (e is SocketIo || e matches Error::Protocol(ProtocolFault::Overrun { .. })
                || exists|s: Seq<u8>| rejection(s) == Some(e)),
    {
        let bytes = match self.recv_bytes() {
            Ok(v) => v,
            Err(e) => return Err(e),
        };
        let r = GenNlMsg::parse(bytes.as_slice());
        proof {
            let s = bytes@;
            if r is Ok {
                assert(is_validated(&r->Ok_0)) by {
                    assert(framing_fault(s) is None && header_of(s).nlmsg_type != NLMSG_ERROR);
                }
            } else {
                assert(rejection(s) == Some(r->Err_0));
            }
        }
        r
    }

    /// Sets the socket's receive buffer size.
    pub fn set_rx_buf_sz(&self, size: usize) -> std::io::Result<()> {
        self.sock.set_rx_buf_sz(size)
    }

    /// The socket's receive buffer size.
    pub fn get_rx_buf_sz(&self) -> std::io::Result<usize> {
        self.sock.get_rx_buf_sz()
    }
}

/// A request, read back through response validation, gives back its message
/// type, its sender, its command and its one attribute, value bytes exact.
pub proof fn lemma_request_round_trip(
    nlmsg_type: u16,
    genl_cmd: u8,
    nla_type: u16,
    data: Seq<u8>,
    pid: u32,
)
    requires
        request_fits(data.len()),
        nlmsg_type != NLMSG_ERROR,
    ensures
        ({
            let b = request_bytes(nlmsg_type, genl_cmd, nla_type, data, pid);
            &&& framing_fault(b) is None
            &&& header_of(b).nlmsg_len == b.len()
            &&& header_of(b).nlmsg_type == nlmsg_type
            &&& header_of(b).nlmsg_flags == NLM_F_REQUEST
            &&& header_of(b).nlmsg_pid == pid
            &&& genl_header_of(b).cmd == genl_cmd
            &&& genl_header_of(b).version == GENL_VERSION
            &&& parse_attrs(payload_of(b)) == seq![(nla_type, data)]
        }),
{
    let attr_len = request_attr_len(data.len());
    let aligned = nla::spec_align(attr_len as int);
    let total = request_len(data.len());
    let pad = zeros((aligned - attr_len) as nat);
    let p0 = le_bytes(total, 4);
    let p1 = le_bytes(nlmsg_type as nat, 2);
    let p2 = le_bytes(NLM_F_REQUEST as nat, 2);
    let p3 = le_bytes(0, 4);
    let p4 = le_bytes(pid as nat, 4);
    let p5 = seq![genl_cmd, GENL_VERSION];
    let p6 = le_bytes(0, 2);
    let p7 = le_bytes(attr_len, 2);
    let p8 = le_bytes(nla_type as nat, 2);
    lemma_le_bytes_len(total, 4);
    lemma_le_bytes_len(nlmsg_type as nat, 2);
    lemma_le_bytes_len(NLM_F_REQUEST as nat, 2);
    lemma_le_bytes_len(0, 4);
    lemma_le_bytes_len(pid as nat, 4);
    lemma_le_bytes_len(0, 2);
    lemma_le_bytes_len(attr_len, 2);
    lemma_le_bytes_len(nla_type as nat, 2);
    reveal_with_fuel(byte_span, 5);
    lemma_le_round_trip(total, 4);
    lemma_le_round_trip(nlmsg_type as nat, 2);
    lemma_le_round_trip(NLM_F_REQUEST as nat, 2);
    lemma_le_round_trip(pid as nat, 4);
    lemma_le_round_trip(attr_len, 2);
    lemma_le_round_trip(nla_type as nat, 2);
    let b = request_bytes(nlmsg_type, genl_cmd, nla_type, data, pid);
    let attr = p7 + p8 + data + pad;
    assert(b =~= p0 + p1 + p2 + p3 + p4 + p5 + p6 + attr);
    assert(b.len() == total);
    assert(b.subrange(0, 4) =~= p0);
    assert(b.subrange(4, 6) =~= p1);
    assert(b.subrange(6, 8) =~= p2);
    assert(b.subrange(12, 16) =~= p4);
    assert(b[16] == genl_cmd);
    assert(b[17] == GENL_VERSION);
    let payload = payload_of(b);
    assert(payload =~= attr);
    assert(payload.subrange(0, 2) =~= p7);
    assert(payload.subrange(2, 4) =~= p8);
    assert(payload.subrange(nla::HDRLEN as int, attr_len as int) =~= data);
    let rest = payload.subrange(aligned, payload.len() as int);
    assert(rest.len() == 0);
    assert(parse_attrs(rest) =~= seq![]);
    assert(parse_attrs(payload) =~= seq![(nla_type, data)]);
}

/// Padding bytes that follow an attribute whose value has `value_len` bytes.
pub open spec fn pad_len(value_len: nat) -> nat {
    (nla::spec_align(nla::HDRLEN + value_len) - (nla::HDRLEN + value_len)) as nat
}

/// The bytes of one attribute of type `t` and value `v`: its header, the
/// value, and `pad`, the bytes up to the next four-byte boundary.
pub open spec fn attr_bytes(t: u16, v: Seq<u8>, pad: Seq<u8>) -> Seq<u8> {
    le_bytes((nla::HDRLEN + v.len()) as nat, 2) + le_bytes(t as nat, 2) + v + pad
}

/// Attributes packed back to back, the `i`-th followed by `pads[i]`.
pub open spec fn attrs_bytes(attrs: Seq<(u16, Seq<u8>)>, pads: Seq<Seq<u8>>) -> Seq<u8>
    decreases attrs.len(),
{
    if attrs.len() == 0 || pads.len() == 0 {
        seq![]
    } else {
        attr_bytes(attrs[0].0, attrs[0].1, pads[0]) + attrs_bytes(attrs.drop_first(), pads.drop_first())
    }
}

/// An attribute's value may be stored in it: its length fits the 16-bit
/// length field.
pub open spec fn value_fits(v: Seq<u8>) -> bool {
    nla::HDRLEN + v.len() <= 0xffff
}

/// Whatever the padding bytes hold and whatever follows, an attribute of
/// value length `L` is read as itself and the next attribute starts
/// `HDRLEN + L` bytes after it, rounded up to a multiple of four.
pub proof fn lemma_next_attr_offset(t: u16, v: Seq<u8>, pad: Seq<u8>, rest: Seq<u8>)
    requires
        value_fits(v),
        pad.len() == pad_len(v.len()),
    ensures
        parse_attrs(attr_bytes(t, v, pad) + rest) == seq![(t, v)] + parse_attrs(rest),
        attr_bytes(t, v, pad).len() == nla::spec_align(nla::HDRLEN + v.len()),
{
    let len = (nla::HDRLEN + v.len()) as nat;
    let aligned = nla::spec_align(len as int);
    lemma_le_bytes_len(len, 2);
    lemma_le_bytes_len(t as nat, 2);
    reveal_with_fuel(byte_span, 3);
    lemma_le_round_trip(len, 2);
    lemma_le_round_trip(t as nat, 2);
    let s = attr_bytes(t, v, pad) + rest;
    assert(s.subrange(0, 2) =~= le_bytes(len, 2));
    assert(s.subrange(2, 4) =~= le_bytes(t as nat, 2));
    assert(s.subrange(nla::HDRLEN as int, len as int) =~= v);
    assert(s.subrange(aligned, s.len() as int) =~= rest);
}

/// A chain of `N` well-formed attributes, whatever their padding bytes hold,
/// walks as exactly those `N` attributes, in order, and then ends.
pub proof fn lemma_attrs_walk(attrs: Seq<(u16, Seq<u8>)>, pads: Seq<Seq<u8>>)
    requires
        pads.len() == attrs.len(),
        forall|i: int| 0 <= i < attrs.len() ==> value_fits(#[trigger] attrs[i].1),
        forall|i: int| 0 <= i < attrs.len() ==> (#[trigger] pads[i]).len() == pad_len(attrs[i].1.len()),
    ensures
        parse_attrs(attrs_bytes(attrs, pads)) == attrs,
        parse_attrs(attrs_bytes(attrs, pads)).len() == attrs.len(),
    decreases attrs.len(),
{
    if attrs.len() == 0 {
        assert(parse_attrs(seq![]) =~= seq![]);
    } else {
        let tail = attrs.drop_first();
        let ptail = pads.drop_first();
        assert forall|i: int| 0 <= i < tail.len() implies value_fits(#[trigger] tail[i].1) by {
            assert(tail[i] == attrs[i + 1]);
        }
        assert forall|i: int| 0 <= i < tail.len() implies (#[trigger] ptail[i]).len() == pad_len(
            tail[i].1.len(),
        ) by {
            assert(tail[i] == attrs[i + 1]);
            assert(ptail[i] == pads[i + 1]);
        }
        lemma_attrs_walk(tail, ptail);
        assert(value_fits(attrs[0].1));
        assert(pads[0].len() == pad_len(attrs[0].1.len()));
        lemma_next_attr_offset(attrs[0].0, attrs[0].1, pads[0], attrs_bytes(tail, ptail));
        assert(seq![(attrs[0].0, attrs[0].1)] + tail =~= attrs);
    }
}

} // verus!
