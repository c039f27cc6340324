use std::mem::size_of;
use taskstats::netlink::{self, nla, nlmsg};

#[test]
fn constants_match_the_c_headers() {
    assert_eq!(libc::NLMSG_ERROR as u16, netlink::NLMSG_ERROR);
    assert_eq!(libc::NLM_F_REQUEST as u16, netlink::NLM_F_REQUEST);
    assert_eq!(libc::NLA_ALIGNTO as usize, nla::ALIGNTO);
    assert_eq!(libc::GENL_ID_CTRL as u16, taskstats::GENL_ID_CTRL);
    assert_eq!(libc::CTRL_CMD_GETFAMILY as u8, taskstats::CTRL_CMD_GETFAMILY);
    assert_eq!(libc::CTRL_ATTR_FAMILY_ID as u16, taskstats::CTRL_ATTR_FAMILY_ID);
    assert_eq!(libc::CTRL_ATTR_FAMILY_NAME as u16, taskstats::CTRL_ATTR_FAMILY_NAME);
}

#[test]
fn header_sizes_match_the_c_structs() {
    assert_eq!(size_of::<libc::nlmsghdr>(), nlmsg::HDRLEN);
    assert_eq!(size_of::<libc::genlmsghdr>(), nlmsg::GENL_HDRLEN);
    assert_eq!(size_of::<libc::nlattr>(), nla::HDRLEN);
    assert_eq!(
        nlmsg::HDRLEN + nlmsg::GENL_HDRLEN + netlink::MAX_MESSAGE_SIZE,
        netlink::RECV_CAPACITY
    );
}
