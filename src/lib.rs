//! Client for the Linux taskstats accounting interface, reached over generic
//! netlink.
//!
//! The library frames requests, validates and walks responses, and decodes the
//! kernel's `struct taskstats` into a typed record. Socket I/O is reached
//! through the [`netlink::NlSocket`] trait, so every decision made on the
//! bytes that travel over the socket is a verified function of those bytes.
use vstd::prelude::*;
use vstd::string::StringSliceAdditionalSpecFns;

pub mod wire;
pub mod netlink;
pub mod model;
pub mod format;
pub mod cmd;

pub use model::{BlkIo, ContextSwitches, Cpu, DelayStat, Delays, Io, Memory, TaskStats, TASKSTATS_SIZE};
use netlink::{GenNlMsg, Netlink, NlAttrs, NlSocket, ProtocolFault, encode_request, parse_attrs, payload_of, rejection, request_bytes, request_fits};
use wire::{le_at, le_bytes, lemma_le_bytes_len, push_le};

verus! {

/// Generic netlink family id of the control family.
pub const GENL_ID_CTRL: u16 = 0x10;
/// Control command that looks a family up by name.
pub const CTRL_CMD_GETFAMILY: u8 = 3;
/// Control attribute carrying a family id (u16).
pub const CTRL_ATTR_FAMILY_ID: u16 = 1;
/// Control attribute carrying a family name (NUL-terminated string).
pub const CTRL_ATTR_FAMILY_NAME: u16 = 2;


/// Taskstats command: get statistics.
pub const TASKSTATS_CMD_GET: u8 = 1;
/// Request attribute: a task id (u32).
pub const TASKSTATS_CMD_ATTR_PID: u16 = 1;
/// Request attribute: a thread group id (u32).
pub const TASKSTATS_CMD_ATTR_TGID: u16 = 2;
/// Request attribute: a cpumask to register a listener for.
pub const TASKSTATS_CMD_ATTR_REGISTER_CPUMASK: u16 = 3;
/// Request attribute: a cpumask to deregister a listener from.
pub const TASKSTATS_CMD_ATTR_DEREGISTER_CPUMASK: u16 = 4;

/// Response attribute: reserved, never sent.
pub const TASKSTATS_TYPE_UNSPEC: u16 = 0;
/// Response attribute: the task id a wrapper reports on.
pub const TASKSTATS_TYPE_PID: u16 = 1;
/// Response attribute: the thread group id a wrapper reports on.
pub const TASKSTATS_TYPE_TGID: u16 = 2;
/// Response attribute: a `struct taskstats`.
pub const TASKSTATS_TYPE_STATS: u16 = 3;
/// Response attribute: wrapper of the statistics of one task.
pub const TASKSTATS_TYPE_AGGR_PID: u16 = 4;
/// Response attribute: wrapper of the statistics of one thread group.
pub const TASKSTATS_TYPE_AGGR_TGID: u16 = 5;
/// Response attribute: end marker, carrying nothing.
pub const TASKSTATS_TYPE_NULL: u16 = 6;

/// Errors possibly returned by `Client`
#[derive(Debug)]
pub enum Error {
    /// Error in netlink socket/protocol layer
    Netlink(netlink::Error),
    /// Failed to lookup family ID for taskstats
    NoFamilyId,
    /// Any unknown error
    Unknown(String),
}

pub type Result<T> = std::result::Result<T, Error>;

/// Which top-level wrappers a scan of a response looks into.
#[derive(Debug, Clone, Copy, PartialEq, Eq)]
pub enum Aggregation {
    /// Per-task wrappers only.
    Pid,
    /// Per-thread-group wrappers only.
    Tgid,
    /// Both kinds of wrapper.
    Any,
}

impl Aggregation {
    pub open spec fn accepts(self, nla_type: u16) -> bool {
        match self {
            Aggregation::Pid => nla_type == TASKSTATS_TYPE_AGGR_PID,
            Aggregation::Tgid => nla_type == TASKSTATS_TYPE_AGGR_TGID,
            Aggregation::Any => nla_type == TASKSTATS_TYPE_AGGR_PID || nla_type
                == TASKSTATS_TYPE_AGGR_TGID,
        }
    }

    /// Whether a top-level attribute of type `nla_type` is a wrapper to look
    /// into.
    pub fn wraps(&self, nla_type: u16) -> (r: bool)
        ensures
            r == self.accepts(nla_type),
    {
        match self {
            Aggregation::Pid => nla_type == TASKSTATS_TYPE_AGGR_PID,
            Aggregation::Tgid => nla_type == TASKSTATS_TYPE_AGGR_TGID,
            Aggregation::Any => nla_type == TASKSTATS_TYPE_AGGR_PID || nla_type
                == TASKSTATS_TYPE_AGGR_TGID,
        }
    }
}

/// The value of the first attribute of type `t`, if any.
pub open spec fn first_of_type(attrs: Seq<(u16, Seq<u8>)>, t: u16) -> Option<Seq<u8>>
    decreases attrs.len(),
{
    if attrs.len() == 0 {
        None
    } else if attrs[0].0 == t {
        Some(attrs[0].1)
    } else {
        first_of_type(attrs.drop_first(), t)
    }
}

/// The statistics payloads among the attributes nested in one wrapper, in
/// order; attributes of other types are passed over.
pub open spec fn stats_of(inner: Seq<(u16, Seq<u8>)>) -> Seq<Seq<u8>>
    decreases inner.len(),
{
    if inner.len() == 0 {
        seq![]
    } else {
        (if inner[0].0 == TASKSTATS_TYPE_STATS {
            seq![inner[0].1]
        } else {
            seq![]
        }) + stats_of(inner.drop_first())
    }
}

/// The statistics payloads of a response's top-level attributes, in order:
/// those nested in the wrappers that `aggr` accepts, up to the first end
/// marker. Attributes of other types are passed over.
pub open spec fn collect_stats(attrs: Seq<(u16, Seq<u8>)>, aggr: Aggregation) -> Seq<Seq<u8>>
    decreases attrs.len(),
{
    if attrs.len() == 0 || attrs[0].0 == TASKSTATS_TYPE_NULL {
        seq![]
    } else {
        (if aggr.accepts(attrs[0].0) {
            stats_of(parse_attrs(attrs[0].1))
        } else {
            seq![]
        }) + collect_stats(attrs.drop_first(), aggr)
    }
}

/// Every payload holds a whole `struct taskstats`.
pub open spec fn all_whole(found: Seq<Seq<u8>>) -> bool {
    forall|i: int| 0 <= i < found.len() ==> found[i].len() >= TASKSTATS_SIZE
}

/// `out` holds one well-formed record per payload of `found`, decoded from it.
pub open spec fn decoded_as(out: Seq<TaskStats>, found: Seq<Seq<u8>>) -> bool {
    &&& out.len() == found.len()
    &&& forall|i: int|
        0 <= i < out.len() ==> {
            &&& (#[trigger] out[i]).wf()
            &&& out[i].raw() == found[i].subrange(0, TASKSTATS_SIZE as int)
        }
}

/// Whether `e` reports an attribute shorter than the `needed` bytes read from
/// it, of length `len`.
pub open spec fn is_short_attribute(e: Error, len: nat, needed: nat) -> bool {
    e matches Error::Netlink(
        netlink::Error::Protocol(ProtocolFault::ShortAttribute { len: l, needed: n }),
    ) && l == len && n == needed
}

/// `r` is what the family lookup owes for the attribute region `payload`:
/// the first family-id attribute's value read as a 16-bit id; `NoFamilyId`
/// where there is none; a short-attribute error where it holds under two
/// bytes.
pub open spec fn family_found_result(r: Result<u16>, payload: Seq<u8>) -> bool {
    match first_of_type(parse_attrs(payload), CTRL_ATTR_FAMILY_ID) {
        None => r matches Err(Error::NoFamilyId),
        Some(v) => if v.len() < 2 {
            r matches Err(e) && is_short_attribute(e, v.len(), 2)
        } else {
            r == Ok::<u16, Error>(le_at(v, 0, 2) as u16)
        },
    }
}

/// `r` is what a query owes for the attribute region `payload`: the record
/// decoded from the first statistics payload the scan finds, `Unknown` where
/// it finds none, a short-attribute error where that payload is short.
pub open spec fn stats_found_result(r: Result<TaskStats>, payload: Seq<u8>, aggr: Aggregation) -> bool {
    let found = collect_stats(parse_attrs(payload), aggr);
    if found.len() == 0 {
        r matches Err(Error::Unknown(_))
    } else if found[0].len() < TASKSTATS_SIZE {
        r matches Err(e) && is_short_attribute(e, found[0].len(), TASKSTATS_SIZE as nat)
    } else {
        r matches Ok(ts) && ts.wf() && ts.raw() == found[0].subrange(0, TASKSTATS_SIZE as int)
    }
}

/// `r` is what a listener owes for the attribute region `payload`: one record
/// per statistics payload the scan finds, in order; `Unknown` where it finds
/// none; a short-attribute error where one of them is short.
pub open spec fn all_found_result(r: Result<Vec<TaskStats>>, payload: Seq<u8>) -> bool {
    let found = collect_stats(parse_attrs(payload), Aggregation::Any);
    if found.len() == 0 {
        r matches Err(Error::Unknown(_))
    } else if all_whole(found) {
        r matches Ok(v) && decoded_as(v@, found)
    } else {
        r matches Err(e) && exists|i: int|
            0 <= i < found.len() && #[trigger] found[i].len() < TASKSTATS_SIZE
                && is_short_attribute(e, found[i].len(), TASKSTATS_SIZE as nat)
    }
}

/// `r` is the netlink error `e`.
pub open spec fn rejected_as<T>(r: Result<T>, e: netlink::Error) -> bool {
    r matches Err(Error::Netlink(f)) && f == e
}

/// `r` is what the family lookup owes for the received message `s`.
pub open spec fn family_result_for(r: Result<u16>, s: Seq<u8>) -> bool {
    match rejection(s) {
        Some(e) => rejected_as(r, e),
        None => family_found_result(r, payload_of(s)),
    }
}

/// `r` is what a query owes for the received message `s`.
pub open spec fn stats_result_for(r: Result<TaskStats>, s: Seq<u8>, aggr: Aggregation) -> bool {
    match rejection(s) {
        Some(e) => rejected_as(r, e),
        None => stats_found_result(r, payload_of(s), aggr),
    }
}

/// `r` is what a listener owes for the received message `s`.
pub open spec fn all_result_for(r: Result<Vec<TaskStats>>, s: Seq<u8>) -> bool {
    match rejection(s) {
        Some(e) => rejected_as(r, e),
        None => all_found_result(r, payload_of(s)),
    }
}

/// `r` failed in the socket or in receiving, before any message was read.
pub open spec fn failed_in_transport<T>(r: Result<T>) -> bool {
    ||| r matches Err(Error::Netlink(netlink::Error::SocketIo(_)))
    ||| r matches Err(Error::Netlink(netlink::Error::Protocol(ProtocolFault::Overrun { .. })))
}

fn no_stats_found() -> (r: Error)
    ensures
        r is Unknown,
{
    Error::Unknown("no TASKSTATS_TYPE_STATS found in response".to_owned())
}

/// Decodes a statistics payload, rejecting one that does not hold a whole
/// `struct taskstats`.
pub fn decode_stats(value: &[u8]) -> (r: Result<TaskStats>)
    ensures
        value@.len() < TASKSTATS_SIZE ==> (r matches Err(e) && is_short_attribute(
            e,
            value@.len(),
            TASKSTATS_SIZE as nat,
        )),
        value@.len() >= TASKSTATS_SIZE ==> (r matches Ok(ts) && ts.wf() && ts.raw()
            == value@.subrange(0, TASKSTATS_SIZE as int)),
{
    if value.len() < TASKSTATS_SIZE {
        return Err(
            Error::Netlink(
                netlink::Error::Protocol(
                    ProtocolFault::ShortAttribute { len: value.len(), needed: TASKSTATS_SIZE },
                ),
            ),
        );
    }
    Ok(TaskStats::from_bytes(value))
}

/// The taskstats family id carried by a control-family response's
/// attribute region `payload`.
pub fn family_id_from_payload(payload: &[u8]) -> (r: Result<u16>)
    ensures
        family_found_result(r, payload@),
{
    let mut attrs = NlAttrs::new(payload);
    loop
        invariant
            attrs.wf(),
            first_of_type(parse_attrs(payload@), CTRL_ATTR_FAMILY_ID) == first_of_type(
                attrs.remaining(),
                CTRL_ATTR_FAMILY_ID,
            ),
        decreases attrs.remaining().len(),
    {
        match attrs.next() {
            None => return Err(Error::NoFamilyId),
            Some(na) => {
                if na.header.nla_type == CTRL_ATTR_FAMILY_ID {
                    if na.payload_len() < 2 {
                        return Err(
                            Error::Netlink(
                                netlink::Error::Protocol(
                                    ProtocolFault::ShortAttribute { len: na.payload_len(), needed: 2 },
                                ),
                            ),
                        );
                    }
                    return Ok(na.payload_as_u16());
                }
            },
        }
    }
}

/// The first statistics payload nested in the wrapper value `value`.
fn first_stats_in(value: &[u8]) -> (r: Option<&[u8]>)
    ensures
        stats_of(parse_attrs(value@)).len() == 0 ==> r is None,
        stats_of(parse_attrs(value@)).len() > 0 ==> (r matches Some(v) && v@ == stats_of(
            parse_attrs(value@),
        )[0]),
{
    let mut inner = NlAttrs::new(value);
    loop
        invariant
            inner.wf(),
            stats_of(parse_attrs(value@)) == stats_of(inner.remaining()),
        decreases inner.remaining().len(),
    {
        match inner.next() {
            None => return None,
            Some(ia) => {
                if ia.header.nla_type == TASKSTATS_TYPE_STATS {
                    return Some(ia.payload());
                }
            },
        }
    }
}

/// The first statistics record of a taskstats response's attribute region
/// `payload`, looking into the wrappers that `aggr` accepts.
///
/// Top-level attributes are read up to the first end marker; attributes of
/// types the scan does not know are passed over at both levels.
pub fn stats_from_payload(payload: &[u8], aggr: Aggregation) -> (r: Result<TaskStats>)
    ensures
        stats_found_result(r, payload@, aggr),
{
    let mut outer = NlAttrs::new(payload);
    loop
        invariant
            outer.wf(),
            collect_stats(parse_attrs(payload@), aggr) == collect_stats(outer.remaining(), aggr),
        decreases outer.remaining().len(),
    {
        match outer.next() {
            None => return Err(no_stats_found()),
            Some(na) => {
                if na.header.nla_type == TASKSTATS_TYPE_NULL {
                    return Err(no_stats_found());
                }
                if aggr.wraps(na.header.nla_type) {
                    if let Some(v) = first_stats_in(na.payload()) {
                        return decode_stats(v);
                    }
                }
            },
        }
    }
}

/// Decodes the statistics payloads nested in the wrapper value `value` onto
/// `out`, which holds the records of the payloads `done` found before it.
fn push_stats_in(value: &[u8], out: &mut Vec<TaskStats>, Ghost(done): Ghost<Seq<Seq<u8>>>) -> (r:
    Result<()>)
    requires
        decoded_as(old(out)@, done),
        all_whole(done),
    ensures
        all_whole(stats_of(parse_attrs(value@))) ==> (r is Ok && decoded_as(
            final(out)@,
            done + stats_of(parse_attrs(value@)),
        )),
        !all_whole(stats_of(parse_attrs(value@))) ==> (r matches Err(e) && exists|i: int|
            0 <= i < stats_of(parse_attrs(value@)).len() && #[trigger] stats_of(
                parse_attrs(value@),
            )[i].len() < TASKSTATS_SIZE && is_short_attribute(
                e,
                stats_of(parse_attrs(value@))[i].len(),
                TASKSTATS_SIZE as nat,
            )),
{
    let ghost all = stats_of(parse_attrs(value@));
    let ghost mut seen: Seq<Seq<u8>> = seq![];
    let mut inner = NlAttrs::new(value);
    proof {
        assert(done + seen =~= done);
    }
    loop
        invariant
            inner.wf(),
            all == stats_of(parse_attrs(value@)),
            all == seen + stats_of(inner.remaining()),
            all_whole(seen),
            all_whole(done),
            decoded_as(out@, done + seen),
        decreases inner.remaining().len(),
    {
        match inner.next() {
            None => {
                proof {
                    assert(all =~= seen);
                }
                return Ok(());
            },
            Some(ia) => {
                if ia.header.nla_type == TASKSTATS_TYPE_STATS {
                    let v = ia.payload();
                    proof {
                        assert(all == seen + seq![v@] + stats_of(inner.remaining()));
                        assert(all[seen.len() as int] == v@);
                    }
                    match decode_stats(v) {
                        Err(e) => {
                            proof {
                                assert(all[seen.len() as int].len() < TASKSTATS_SIZE);
                                assert(!all_whole(all));
                            }
                            return Err(e);
                        },
                        Ok(ts) => {
                            let ghost before = out@;
                            out.push(ts);
                            proof {
                                let d = done + seen;
                                let d2 = done + (seen + seq![v@]);
                                assert(d2 =~= d + seq![v@]);
                                assert forall|i: int| 0 <= i < out@.len() implies {
                                    &&& (#[trigger] out@[i]).wf()
                                    &&& out@[i].raw() == d2[i].subrange(0, TASKSTATS_SIZE as int)
                                } by {
                                    if i < before.len() {
                                        assert(out@[i] == before[i]);
                                        assert(d2[i] == d[i]);
                                    }
                                }
                                seen = seen + seq![v@];
                                assert(all == seen + stats_of(inner.remaining()));
                            }
                        },
                    }
                }
            },
        }
    }
}

/// Every statistics record of a taskstats response's attribute region
/// `payload`, in the order the kernel sent them, from wrappers of both kinds.
///
/// Top-level attributes are read up to the first end marker; attributes of
/// types the scan does not know are passed over at both levels.
pub fn all_stats_from_payload(payload: &[u8]) -> (r: Result<Vec<TaskStats>>)
    ensures
        all_found_result(r, payload@),
{
    let ghost all = collect_stats(parse_attrs(payload@), Aggregation::Any);
    let ghost mut done: Seq<Seq<u8>> = seq![];
    let mut out: Vec<TaskStats> = Vec::new();
    let mut outer = NlAttrs::new(payload);
    loop
        invariant
            outer.wf(),
            all == collect_stats(parse_attrs(payload@), Aggregation::Any),
            all == done + collect_stats(outer.remaining(), Aggregation::Any),
            all_whole(done),
            decoded_as(out@, done),
        decreases outer.remaining().len(),
    {
        let ghost rem = outer.remaining();
        match outer.next() {
            None => {
                proof {
                    assert(all =~= done);
                }
                if out.len() == 0 {
                    return Err(no_stats_found());
                }
                return Ok(out);
            },
            Some(na) => {
                if na.header.nla_type == TASKSTATS_TYPE_NULL {
                    proof {
                        assert(all =~= done);
                    }
                    if out.len() == 0 {
                        return Err(no_stats_found());
                    }
                    return Ok(out);
                }
                if Aggregation::Any.wraps(na.header.nla_type) {
                    let ghost found_here = stats_of(parse_attrs(na.value@));
                    match push_stats_in(na.payload(), &mut out, Ghost(done)) {
                        Err(e) => {
                            proof {
                                let i = choose|i: int|
                                    0 <= i < found_here.len() && #[trigger] found_here[i].len()
                                        < TASKSTATS_SIZE && is_short_attribute(
                                        e,
                                        found_here[i].len(),
                                        TASKSTATS_SIZE as nat,
                                    );
                                assert(all[done.len() + i] == found_here[i]);
                            }
                            return Err(e);
                        },
                        Ok(()) => {
                            proof {
                                assert(all == (done + found_here) + collect_stats(
                                    outer.remaining(),
                                    Aggregation::Any,
                                ));
                                assert forall|i: int| 0 <= i < (done + found_here).len() implies (
                                done + found_here)[i].len() >= TASKSTATS_SIZE by {
                                    if i >= done.len() {
                                        assert((done + found_here)[i] == found_here[i - done.len()]);
                                    }
                                }
                                done = done + found_here;
                            }
                        },
                    }
                }
            },
        }
    }
}

/// A scan stops at the first top-level end marker: nothing after it is read.
pub proof fn lemma_scan_stops_at_null(
    before: Seq<(u16, Seq<u8>)>,
    v: Seq<u8>,
    after: Seq<(u16, Seq<u8>)>,
    aggr: Aggregation,
)
    requires
        forall|i: int| 0 <= i < before.len() ==> (#[trigger] before[i]).0 != TASKSTATS_TYPE_NULL,
    ensures
        collect_stats(before + seq![(TASKSTATS_TYPE_NULL, v)] + after, aggr) == collect_stats(
            before,
            aggr,
        ),
    decreases before.len(),
{
    let all = before + seq![(TASKSTATS_TYPE_NULL, v)] + after;
    if before.len() == 0 {
        assert(all[0] == (TASKSTATS_TYPE_NULL, v));
    } else {
        assert(before[0].0 != TASKSTATS_TYPE_NULL);
        let tail = before.drop_first();
        assert forall|i: int| 0 <= i < tail.len() implies (#[trigger] tail[i]).0
            != TASKSTATS_TYPE_NULL by {
            assert(tail[i] == before[i + 1]);
        }
        lemma_scan_stops_at_null(tail, v, after, aggr);
        assert(all[0] == before[0]);
        assert(all.drop_first() =~= tail + seq![(TASKSTATS_TYPE_NULL, v)] + after);
    }
}

/// A top-level attribute that is neither an end marker nor a wrapper the scan
/// looks into changes nothing the scan finds.
pub proof fn lemma_unknown_top_level_skipped(
    before: Seq<(u16, Seq<u8>)>,
    t: u16,
    v: Seq<u8>,
    after: Seq<(u16, Seq<u8>)>,
    aggr: Aggregation,
)
    requires
        t != TASKSTATS_TYPE_NULL,
        !aggr.accepts(t),
    ensures
        collect_stats(before + seq![(t, v)] + after, aggr) == collect_stats(before + after, aggr),
    decreases before.len(),
{
    let all = before + seq![(t, v)] + after;
    if before.len() == 0 {
        assert(all[0] == (t, v));
        assert(all.drop_first() =~= after);
        assert(before + after =~= after);
    } else {
        let tail = before.drop_first();
        lemma_unknown_top_level_skipped(tail, t, v, after, aggr);
        assert(all[0] == before[0]);
        assert((before + after)[0] == before[0]);
        assert(all.drop_first() =~= tail + seq![(t, v)] + after);
        assert((before + after).drop_first() =~= tail + after);
    }
}

/// A nested attribute that is not a statistics payload changes nothing the
/// scan finds.
pub proof fn lemma_unknown_nested_skipped(
    before: Seq<(u16, Seq<u8>)>,
    t: u16,
    v: Seq<u8>,
    after: Seq<(u16, Seq<u8>)>,
)
    requires
        t != TASKSTATS_TYPE_STATS,
    ensures
        stats_of(before + seq![(t, v)] + after) == stats_of(before + after),
    decreases before.len(),
{
    let all = before + seq![(t, v)] + after;
    if before.len() == 0 {
        assert(all[0] == (t, v));
        assert(all.drop_first() =~= after);
        assert(before + after =~= after);
    } else {
        let tail = before.drop_first();
        lemma_unknown_nested_skipped(tail, t, v, after);
        assert(all[0] == before[0]);
        assert((before + after)[0] == before[0]);
        assert(all.drop_first() =~= tail + seq![(t, v)] + after);
        assert((before + after).drop_first() =~= tail + after);
    }
}

/// The taskstats family lookup owed for the received message `bytes`:
/// validation first (see [`GenNlMsg::parse`]), then the family-id attribute.
pub fn family_id_from_message(bytes: &[u8]) -> (r: Result<u16>)
    ensures
        family_result_for(r, bytes@),
{
    match GenNlMsg::parse(bytes) {
        Err(e) => Err(Error::Netlink(e)),
        Ok(m) => family_id_from_payload(m.payload()),
    }
}

/// The query result owed for the received message `bytes`: validation first
/// (see [`GenNlMsg::parse`]), then the scan of [`stats_from_payload`].
pub fn stats_from_message(bytes: &[u8], aggr: Aggregation) -> (r: Result<TaskStats>)
    ensures
        stats_result_for(r, bytes@, aggr),
{
    match GenNlMsg::parse(bytes) {
        Err(e) => Err(Error::Netlink(e)),
        Ok(m) => stats_from_payload(m.payload(), aggr),
    }
}

/// The listener result owed for the received message `bytes`: validation
/// first (see [`GenNlMsg::parse`]), then the scan of
/// [`all_stats_from_payload`].
pub fn all_stats_from_message(bytes: &[u8]) -> (r: Result<Vec<TaskStats>>)
    ensures
        all_result_for(r, bytes@),
{
    match GenNlMsg::parse(bytes) {
        Err(e) => Err(Error::Netlink(e)),
        Ok(m) => all_stats_from_payload(m.payload()),
    }
}

/// The bytes of the taskstats family name, `TASKSTATS` and a NUL.
pub open spec fn genl_name_bytes() -> Seq<u8> {
    seq![84u8, 65, 83, 75, 83, 84, 65, 84, 83, 0]
}

/// The taskstats family name, `TASKSTATS` and a NUL.
pub fn genl_name() -> (r: Vec<u8>)
    ensures
        r@ == genl_name_bytes(),
{
    let mut v: Vec<u8> = Vec::new();
    v.push(84);
    v.push(65);
    v.push(83);
    v.push(75);
    v.push(83);
    v.push(84);
    v.push(65);
    v.push(84);
    v.push(83);
    v.push(0);
    proof {
        assert(v@ =~= genl_name_bytes());
    }
    v
}

/// The control-family request, from process `pid`, that asks for the
/// taskstats family by name.
pub fn family_request(pid: u32) -> (r: Vec<u8>)
    ensures
        r@ == request_bytes(GENL_ID_CTRL, CTRL_CMD_GETFAMILY, CTRL_ATTR_FAMILY_NAME, genl_name_bytes(), pid),
{
    let name = genl_name();
    assert(request_fits(name@.len()));
    encode_request(GENL_ID_CTRL, CTRL_CMD_GETFAMILY, CTRL_ATTR_FAMILY_NAME, name.as_slice(), pid).unwrap()
}

/// Interface to access kernel taskstats API through the netlink socket.
pub struct Client<S: NlSocket> {
    netlink: Netlink<S>,
    ts_family_id: u16,
}

impl<S: NlSocket> Client<S> {
    /// The taskstats family id resolved when the client was opened.
    pub closed spec fn spec_family_id(&self) -> u16 {
        self.ts_family_id
    }

    /// The sender id written into every request.
    pub closed spec fn spec_pid(&self) -> u32 {
        self.netlink.pid()
    }

    /// Creates a client on `netlink` once the kernel has told the taskstats
    /// family id: sends [`family_request`], then reads the answer with
    /// [`family_id_from_message`].
    ///
    /// # Errors
    /// * when the exchange with the control family fails
    /// * when the kernel's answer carries no family id
    pub fn open(netlink: Netlink<S>) -> (r: Result<Client<S>>)
        ensures
            r matches Ok(c) ==> c.spec_pid() == netlink.pid() && exists|s: Seq<u8>|
                family_result_for(Ok::<u16, Error>(c.spec_family_id()), s),
            r matches Err(e) ==> failed_in_transport(Err::<(), Error>(e)) || exists|s: Seq<u8>|
                family_result_for(Err::<u16, Error>(e), s),
    {
        match Self::lookup_family_id(&netlink) {
            Ok(id) => {
                let c = Client { netlink, ts_family_id: id };
                proof {
                    let s = choose|s: Seq<u8>| family_result_for(Ok::<u16, Error>(id), s);
                    assert(family_result_for(Ok::<u16, Error>(c.spec_family_id()), s));
                }
                Ok(c)
            },
            Err(e) => Err(e),
        }
    }

    fn lookup_family_id(netlink: &Netlink<S>) -> (r: Result<u16>)
        ensures
            failed_in_transport(r) || exists|s: Seq<u8>| family_result_for(r, s),
    {
        let req = family_request(netlink.sender_pid());
        if let Err(e) = netlink.send_msg(req.as_slice()) {
            return Err(Error::Netlink(e));
        }
        let bytes = match netlink.recv_bytes() {
            Ok(v) => v,
            Err(e) => return Err(Error::Netlink(e)),
        };
        let r = family_id_from_message(bytes.as_slice());
        proof {
            assert(family_result_for(r, bytes@));
        }
        r
    }

    /// The taskstats family id.
    pub fn family_id(&self) -> (r: u16)
        ensures
            r == self.spec_family_id(),
    {
        self.ts_family_id
    }

    /// The taskstats request carrying the attribute `(taskstats_cmd, data)`.
    pub fn request(&self, taskstats_cmd: u16, data: &[u8]) -> (r: netlink::Result<Vec<u8>>)
        ensures
            request_fits(data@.len()) ==> (r matches Ok(v) && v@ == request_bytes(
                self.spec_family_id(),
                TASKSTATS_CMD_GET,
                taskstats_cmd,
                data@,
                self.spec_pid(),
            )),
            !request_fits(data@.len()) ==> (r matches Err(
                netlink::Error::Protocol(ProtocolFault::OversizedRequest { value_len }),
            ) && value_len == data@.len()),
    {
        encode_request(self.ts_family_id, TASKSTATS_CMD_GET, taskstats_cmd, data, self.netlink.sender_pid())
    }

    fn id_request(&self, taskstats_cmd: u16, id: u32) -> (r: Vec<u8>)
        ensures
            r@ == request_bytes(
                self.spec_family_id(),
                TASKSTATS_CMD_GET,
                taskstats_cmd,
                le_bytes(id as nat, 4),
                self.spec_pid(),
            ),
    {
        let mut data: Vec<u8> = Vec::new();
        push_le(&mut data, id as u64, 4);
        proof {
            lemma_le_bytes_len(id as nat, 4);
            assert(data@ =~= le_bytes(id as nat, 4));
        }
        self.request(taskstats_cmd, data.as_slice()).unwrap()
    }

    /// The request for the statistics of task `tid`: its id, four bytes in
    /// host order, under the task attribute.
    pub fn pid_request(&self, tid: u32) -> (r: Vec<u8>)
        ensures
            r@ == request_bytes(
                self.spec_family_id(),
                TASKSTATS_CMD_GET,
                TASKSTATS_CMD_ATTR_PID,
                le_bytes(tid as nat, 4),
                self.spec_pid(),
            ),
    {
        self.id_request(TASKSTATS_CMD_ATTR_PID, tid)
    }

    /// The request for the statistics of thread group `tgid`: its id, four
    /// bytes in host order, under the thread-group attribute.
    pub fn tgid_request(&self, tgid: u32) -> (r: Vec<u8>)
        ensures
            r@ == request_bytes(
                self.spec_family_id(),
                TASKSTATS_CMD_GET,
                TASKSTATS_CMD_ATTR_TGID,
                le_bytes(tgid as nat, 4),
                self.spec_pid(),
            ),
    {
        self.id_request(TASKSTATS_CMD_ATTR_TGID, tgid)
    }

    /// Sends one taskstats request, the one [`Client::request`] builds.
    pub fn send(&self, taskstats_cmd: u16, data: &[u8]) -> (r: Result<()>)
        ensures
            !request_fits(data@.len()) ==> (r matches Err(
                Error::Netlink(netlink::Error::Protocol(ProtocolFault::OversizedRequest { value_len })),
            ) && value_len == data@.len()),
            request_fits(data@.len()) ==> (r is Ok || r matches Err(
                Error::Netlink(netlink::Error::SocketIo(_)),
            )),
    {
        let msg = match self.request(taskstats_cmd, data) {
            Ok(v) => v,
            Err(e) => return Err(Error::Netlink(e)),
        };
        match self.netlink.send_msg(msg.as_slice()) {
            Ok(()) => Ok(()),
            Err(e) => Err(Error::Netlink(e)),
        }
    }

    fn query(&self, req: Vec<u8>, aggr: Aggregation) -> (r: Result<TaskStats>)
        ensures
            r matches Ok(ts) ==> ts.wf(),
            failed_in_transport(r) || exists|s: Seq<u8>| stats_result_for(r, s, aggr),
    {
        if let Err(e) = self.netlink.send_msg(req.as_slice()) {
            return Err(Error::Netlink(e));
        }
        let bytes = match self.netlink.recv_bytes() {
            Ok(v) => v,
            Err(e) => return Err(Error::Netlink(e)),
        };
        let r = stats_from_message(bytes.as_slice(), aggr);
        proof {
            assert(stats_result_for(r, bytes@, aggr));
        }
        r
    }

    /// Obtain taskstats for given task ID (e.g. single thread of a
    /// multithreaded process): sends [`Client::pid_request`], receives one
    /// message and reads it with [`stats_from_message`], looking into
    /// per-task wrappers.
    ///
    /// # Errors
    /// * when netlink socket failed
    /// * when kernel responded error
    /// * when the returned data couldn't be interpreted
    pub fn pid_stats(&self, tid: u32) -> (r: Result<TaskStats>)
        ensures
            r matches Ok(ts) ==> ts.wf(),
            failed_in_transport(r) || exists|s: Seq<u8>| stats_result_for(r, s, Aggregation::Pid),
    {
        let req = self.pid_request(tid);
        self.query(req, Aggregation::Pid)
    }

    /// Obtain taskstats for given thread group ID (e.g. cumulated statistics
    /// of a multithreaded process): sends [`Client::tgid_request`], receives
    /// one message and reads it with [`stats_from_message`], looking into
    /// per-thread-group wrappers.
    ///
    /// # Errors
    /// * when netlink socket failed
    /// * when kernel responded error
    /// * when the returned data couldn't be interpreted
    pub fn tgid_stats(&self, tgid: u32) -> (r: Result<TaskStats>)
        ensures
            r matches Ok(ts) ==> ts.wf(),
            failed_in_transport(r) || exists|s: Seq<u8>| stats_result_for(r, s, Aggregation::Tgid),
    {
        let req = self.tgid_request(tgid);
        self.query(req, Aggregation::Tgid)
    }

    /// The request that registers a listener for `cpu_mask`.
    pub fn register_cpumask_request(&self, cpu_mask: &str) -> (r: netlink::Result<Vec<u8>>)
        ensures
            request_fits(cpu_mask.spec_bytes().len()) ==> (r matches Ok(v) && v@ == request_bytes(
                self.spec_family_id(),
                TASKSTATS_CMD_GET,
                TASKSTATS_CMD_ATTR_REGISTER_CPUMASK,
                cpu_mask.spec_bytes(),
                self.spec_pid(),
            )),
            !request_fits(cpu_mask.spec_bytes().len()) ==> r matches Err(
                netlink::Error::Protocol(ProtocolFault::OversizedRequest { .. }),
            ),
    {
        self.request(TASKSTATS_CMD_ATTR_REGISTER_CPUMASK, cpu_mask.as_bytes())
    }

    /// The request that deregisters a listener for `cpu_mask`.
    pub fn deregister_cpumask_request(&self, cpu_mask: &str) -> (r: netlink::Result<Vec<u8>>)
        ensures
            request_fits(cpu_mask.spec_bytes().len()) ==> (r matches Ok(v) && v@ == request_bytes(
                self.spec_family_id(),
                TASKSTATS_CMD_GET,
                TASKSTATS_CMD_ATTR_DEREGISTER_CPUMASK,
                cpu_mask.spec_bytes(),
                self.spec_pid(),
            )),
            !request_fits(cpu_mask.spec_bytes().len()) ==> r matches Err(
                netlink::Error::Protocol(ProtocolFault::OversizedRequest { .. }),
            ),
    {
        self.request(TASKSTATS_CMD_ATTR_DEREGISTER_CPUMASK, cpu_mask.as_bytes())
    }

    fn send_request(&self, req: netlink::Result<Vec<u8>>) -> (r: Result<()>)
        ensures
            req is Err ==> rejected_as(r, req->Err_0),
            req is Ok ==> (r is Ok || r matches Err(Error::Netlink(netlink::Error::SocketIo(_)))),
    {
        let msg = match req {
            Ok(v) => v,
            Err(e) => return Err(Error::Netlink(e)),
        };
        match self.netlink.send_msg(msg.as_slice()) {
            Ok(()) => Ok(()),
            Err(e) => Err(Error::Netlink(e)),
        }
    }

    /// Register listener with the specific cpumask, an ascii string of
    /// comma-separated cpu ranges such as "1-3,5,7-8": sends
    /// [`Client::register_cpumask_request`]. No reply is read.
    pub fn register_cpumask(&self, cpu_mask: &str) -> (r: Result<()>)
        ensures
            !request_fits(cpu_mask.spec_bytes().len()) ==> r matches Err(
                Error::Netlink(netlink::Error::Protocol(ProtocolFault::OversizedRequest { .. })),
            ),
            request_fits(cpu_mask.spec_bytes().len()) ==> (r is Ok || r matches Err(
                Error::Netlink(netlink::Error::SocketIo(_)),
            )),
    {
        let req = self.register_cpumask_request(cpu_mask);
        self.send_request(req)
    }

    /// Deregister listener with the specific cpumask, an ascii string of
    /// comma-separated cpu ranges such as "1-3,5,7-8": sends
    /// [`Client::deregister_cpumask_request`]. No reply is read.
    pub fn deregister_cpumask(&self, cpu_mask: &str) -> (r: Result<()>)
        ensures
            !request_fits(cpu_mask.spec_bytes().len()) ==> r matches Err(
                Error::Netlink(netlink::Error::Protocol(ProtocolFault::OversizedRequest { .. })),
            ),
            request_fits(cpu_mask.spec_bytes().len()) ==> (r is Ok || r matches Err(
                Error::Netlink(netlink::Error::SocketIo(_)),
            )),
    {
        let req = self.deregister_cpumask_request(cpu_mask);
        self.send_request(req)
    }

    /// Receives one message of the listeners registered by cpumask and
    /// decodes every statistics record in it, in the kernel's order (see
    /// [`all_stats_from_message`]). The exit of the last thread of a group
    /// brings a second record, for the group.
    pub fn listen_registered(&self) -> (r: Result<Vec<TaskStats>>)
        ensures
            r matches Ok(v) ==> v@.len() > 0 && forall|i: int| 0 <= i < v@.len() ==> (
            #[trigger] v@[i]).wf(),
            failed_in_transport(r) || exists|s: Seq<u8>| all_result_for(r, s),
    {
        let bytes = match self.netlink.recv_bytes() {
            Ok(v) => v,
            Err(e) => return Err(Error::Netlink(e)),
        };
        let r = all_stats_from_message(bytes.as_slice());
        proof {
            assert(all_result_for(r, bytes@));
            if r is Ok {
                let v = r->Ok_0;
                assert forall|i: int| 0 <= i < v@.len() implies (#[trigger] v@[i]).wf() by {}
            }
        }
        r
    }

    /// Set receiver buffer size in bytes (SO_RCVBUF socket option, see
    /// socket(7)). The kernel doubles the value, to allow space for
    /// bookkeeping overhead.
    pub fn set_rx_buf_sz(&self, payload: usize) -> (r: Result<()>)
        ensures
            r is Ok || r matches Err(Error::Netlink(netlink::Error::SocketIo(_))),
    {
        match self.netlink.set_rx_buf_sz(payload) {
            Ok(()) => Ok(()),
            Err(e) => Err(Error::Netlink(netlink::Error::SocketIo(e))),
        }
    }

    /// Get receiver buffer size in bytes (SO_RCVBUF socket option, see
    /// socket(7)): the doubled value the kernel keeps.
    pub fn get_rx_buf_sz(&self) -> (r: Result<usize>)
        ensures
            r is Ok || r matches Err(Error::Netlink(netlink::Error::SocketIo(_))),
    {
        match self.netlink.get_rx_buf_sz() {
            Ok(n) => Ok(n),
            Err(e) => Err(Error::Netlink(netlink::Error::SocketIo(e))),
        }
    }
}

} // verus!
