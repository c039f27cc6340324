//! Netlink message header constants, alignment and validation.
use vstd::prelude::*;
use super::NlMsgHdr;

verus! {

/// Size of the netlink message header (`struct nlmsghdr`).
pub const HDRLEN: usize = 16;

/// Size of the generic netlink header (`struct genlmsghdr`).
pub const GENL_HDRLEN: usize = 4;

/// Message boundary alignment.
pub const ALIGNTO: usize = 4;

/// Rounds `len` up to the message alignment.
pub fn align(len: usize) -> (r: usize)
    requires
        len + 3 <= usize::MAX,
    ensures
        r == super::nla::spec_align(len as int),
        r % 4 == 0,
        len <= r < len + 4,
{
    (len + (ALIGNTO - 1)) / ALIGNTO * ALIGNTO
}

/// A header is consistent with the `len` bytes received when both the bytes
/// received and the length it declares cover a header, and the declared
/// length does not run past what was received.
pub open spec fn spec_is_valid(nlmsg_len: nat, len: nat) -> bool {
    &&& len >= HDRLEN
    &&& nlmsg_len >= HDRLEN
    &&& nlmsg_len <= len
}

/// Whether `nlh`, the header of a message of which `len` bytes were received,
/// is consistent with them.
pub fn is_valid(nlh: &NlMsgHdr, len: usize) -> (r: bool)
    ensures
        r == spec_is_valid(nlh.nlmsg_len as nat, len as nat),
{
    len >= HDRLEN && nlh.nlmsg_len as usize >= HDRLEN && nlh.nlmsg_len as usize <= len
}

} // verus!
