//! Typed control messages and the ancillary-data codec.
//!
//! A control message is a header (total length, protocol level, message
//! type) followed by a payload. Records are encoded back to back: the first
//! record occupies exactly its unpadded total length, every later record is
//! padded with zero bytes up to the alignment unit. The decoder advances by
//! the unpadded length after the first record and by the padded length after
//! every later one, which is the kernel's own stepping convention, so the
//! two directions invert each other.

use vstd::prelude::*;
use vstd::bytes::*;
use crate::layout::{CMSG_HDR_LEN, CMSG_ALIGN_UNIT, SOL_SOCKET, SCM_RIGHTS, SCM_TIMESTAMP, TIMEVAL_LEN};
use crate::wire::{
    u32_of_i32, i32_of_u32, u64_of_i64, i64_of_u64, i32_to_u32, u32_to_i32, i64_to_u64,
    u64_to_i64, zeros, push_zeros, push_u32_le, push_u64_le, read_u32_le, read_u64_le,
    lemma_i32_u32_round_trip,
};
use crate::{spec_align, cmsg_align, lemma_align_bounds};

verus! {

broadcast use vstd::slice::axiom_spec_len;

/// A timestamp payload: seconds and fractional microseconds.
#[derive(Clone, Copy, Debug, PartialEq, Eq, Structural)]
pub struct TimeVal {
    pub tv_sec: i64,
    pub tv_usec: i64,
}

/// A control message whose (level, type) pair the library does not know:
/// the pair and the raw payload bytes are preserved verbatim.
#[derive(Clone, Debug, PartialEq, Eq)]
pub struct UnknownCmsg {
    pub cmsg_level: i32,
    pub cmsg_type: i32,
    pub data: Vec<u8>,
}

/// A typed control message.
#[derive(Clone, Debug, PartialEq, Eq)]
pub enum ControlMessage {
    /// An ordered sequence of file-descriptor handles passed between
    /// processes; the order is significant and preserved.
    ScmRights(Vec<i32>),
    /// The time the enclosing packet was received by the kernel.
    ScmTimestamp(TimeVal),
    /// Any other (level, type) pair, kept verbatim for forward
    /// compatibility.
    Unknown(UnknownCmsg),
}

/// The mathematical model of a control message.
pub enum CmsgModel {
    Rights(Seq<i32>),
    Timestamp(i64, i64),
    Unknown(i32, i32, Seq<u8>),
}

impl View for ControlMessage {
    type V = CmsgModel;

    open spec fn view(&self) -> CmsgModel {
        match self {
            ControlMessage::ScmRights(fds) => CmsgModel::Rights(fds@),
            ControlMessage::ScmTimestamp(tv) => CmsgModel::Timestamp(tv.tv_sec, tv.tv_usec),
            ControlMessage::Unknown(u) => CmsgModel::Unknown(u.cmsg_level, u.cmsg_type, u.data@),
        }
    }
}

/// The protocol level written into a message's header.
pub open spec fn level_of(m: CmsgModel) -> i32 {
    match m {
        CmsgModel::Rights(_) => SOL_SOCKET,
        CmsgModel::Timestamp(_, _) => SOL_SOCKET,
        CmsgModel::Unknown(level, _, _) => level,
    }
}

/// The message type written into a message's header.
pub open spec fn type_of(m: CmsgModel) -> i32 {
    match m {
        CmsgModel::Rights(_) => SCM_RIGHTS,
        CmsgModel::Timestamp(_, _) => SCM_TIMESTAMP,
        CmsgModel::Unknown(_, typ, _) => typ,
    }
}

/// The payload of a rights message: each handle as four little-endian
/// bytes of its two's-complement representation, in order.
pub open spec fn fd_bytes(fds: Seq<i32>) -> Seq<u8> {
    Seq::new(fds.len() * 4, |i: int| spec_u32_to_le_bytes(u32_of_i32(fds[i / 4]))[i % 4])
}

/// The payload bytes of a control message.
pub open spec fn payload_of(m: CmsgModel) -> Seq<u8> {
    match m {
        CmsgModel::Rights(fds) => fd_bytes(fds),
        CmsgModel::Timestamp(sec, usec) => spec_u64_to_le_bytes(u64_of_i64(sec))
            + spec_u64_to_le_bytes(u64_of_i64(usec)),
        CmsgModel::Unknown(_, _, data) => data,
    }
}

/// A message's unpadded total length: header plus payload.
pub open spec fn cmsg_len_of(m: CmsgModel) -> nat {
    (CMSG_HDR_LEN + payload_of(m).len()) as nat
}

/// A message's padded total length: the unpadded length rounded up to the
/// alignment unit.
pub open spec fn cmsg_space_of(m: CmsgModel) -> nat {
    spec_align(cmsg_len_of(m))
}

/// A message small enough that its lengths fit the machine's word size.
pub open spec fn wf_cmsg(m: CmsgModel) -> bool {
    payload_of(m).len() + CMSG_HDR_LEN + CMSG_ALIGN_UNIT <= usize::MAX
}

/// The sixteen header bytes of a message: 64-bit total length, 32-bit
/// level, 32-bit type, all little-endian.
pub open spec fn header_bytes(m: CmsgModel) -> Seq<u8> {
    spec_u64_to_le_bytes(cmsg_len_of(m) as u64) + spec_u32_to_le_bytes(
        u32_of_i32(level_of(m)),
    ) + spec_u32_to_le_bytes(u32_of_i32(type_of(m)))
}

/// One encoded record in its unpadded form: header then payload.
pub open spec fn encoded_one(m: CmsgModel) -> Seq<u8> {
    header_bytes(m) + payload_of(m)
}

/// One encoded record padded with zero bytes up to the alignment unit.
pub open spec fn encoded_one_padded(m: CmsgModel) -> Seq<u8> {
    encoded_one(m) + zeros((cmsg_space_of(m) - cmsg_len_of(m)) as nat)
}

/// The encoding of every record after the first: each in padded form.
pub open spec fn encoded_tail(ms: Seq<CmsgModel>) -> Seq<u8>
    decreases ms.len(),
{
    if ms.len() == 0 {
        Seq::empty()
    } else {
        encoded_one_padded(ms[0]) + encoded_tail(ms.drop_first())
    }
}

/// The ancillary buffer encoding a message list: the first record unpadded,
/// every later record padded. An empty list encodes to an empty buffer.
pub open spec fn encoded_cmsgs(ms: Seq<CmsgModel>) -> Seq<u8> {
    if ms.len() == 0 {
        Seq::empty()
    } else {
        encoded_one(ms[0]) + encoded_tail(ms.drop_first())
    }
}

pub proof fn lemma_le_bytes_len()
    ensures
        forall|x: u64| (#[trigger] spec_u64_to_le_bytes(x)).len() == 8,
        forall|x: u32| (#[trigger] spec_u32_to_le_bytes(x)).len() == 4,
        forall|x: u16| (#[trigger] spec_u16_to_le_bytes(x)).len() == 2,
{
    lemma_auto_spec_u64_to_from_le_bytes();
    lemma_auto_spec_u32_to_from_le_bytes();
    lemma_auto_spec_u16_to_from_le_bytes();
}

/// The encoded forms have exactly the lengths the length functions give.
pub proof fn lemma_encoded_one_len(m: CmsgModel)
    ensures
        header_bytes(m).len() == CMSG_HDR_LEN,
        encoded_one(m).len() == cmsg_len_of(m),
        encoded_one_padded(m).len() == cmsg_space_of(m),
{
    lemma_le_bytes_len();
    lemma_align_bounds(cmsg_len_of(m));
}

impl ControlMessage {
    /// The unpadded total length of this message once encoded: header plus
    /// payload bytes.
    pub fn len(&self) -> (r: usize)
        requires
            wf_cmsg(self@),
        ensures
            r == cmsg_len_of(self@),
    {
        let payload_len: usize = match self {
            ControlMessage::ScmRights(fds) => fds.len() * 4,
            ControlMessage::ScmTimestamp(_) => TIMEVAL_LEN,
            ControlMessage::Unknown(u) => u.data.len(),
        };
        proof {
            lemma_le_bytes_len();
        }
        CMSG_HDR_LEN + payload_len
    }

    /// The padded total length of this message once encoded: its unpadded
    /// length rounded up to the alignment unit.
    pub fn space(&self) -> (r: usize)
        requires
            wf_cmsg(self@),
        ensures
            r == cmsg_space_of(self@),
    {
        cmsg_align(self.len())
    }

    /// Append this message's payload bytes to `buf`.
    fn encode_payload(&self, buf: &mut Vec<u8>)
        ensures
            final(buf)@ == old(buf)@ + payload_of(self@),
    {
        match self {
            ControlMessage::ScmRights(fds) => {
                let n = fds.len();
                let mut i: usize = 0;
                while i < n
                    invariant
                        i <= n,
                        n == fds@.len(),
                        buf@ == old(buf)@ + fd_bytes(fds@.take(i as int)),
                    decreases n - i,
                {
                    push_u32_le(buf, i32_to_u32(fds[i]));
                    proof {
                        lemma_fd_bytes_snoc(fds@, i as int);
                    }
                    i += 1;
                }
                proof {
                    assert(fds@.take(n as int) =~= fds@);
                }
            },
            ControlMessage::ScmTimestamp(tv) => {
                push_u64_le(buf, i64_to_u64(tv.tv_sec));
                push_u64_le(buf, i64_to_u64(tv.tv_usec));
                proof {
                    assert(buf@ =~= old(buf)@ + payload_of(self@));
                }
            },
            ControlMessage::Unknown(u) => {
                let n = u.data.len();
                let mut i: usize = 0;
                while i < n
                    invariant
                        i <= n,
                        n == u.data@.len(),
                        buf@ == old(buf)@ + u.data@.take(i as int),
                    decreases n - i,
                {
                    buf.push(u.data[i]);
                    proof {
                        assert(buf@ =~= old(buf)@ + u.data@.take(i + 1));
                    }
                    i += 1;
                }
                proof {
                    assert(u.data@.take(n as int) =~= u.data@);
                }
            },
        }
    }

    /// Append this message's encoded record to `buf`: the header, the
    /// payload, and, when `pad` is set, zero bytes up to the alignment
    /// unit.
    pub fn encode_into(&self, buf: &mut Vec<u8>, pad: bool)
        requires
            wf_cmsg(self@),
        ensures
            pad ==> final(buf)@ == old(buf)@ + encoded_one_padded(self@),
            !pad ==> final(buf)@ == old(buf)@ + encoded_one(self@),
    {
        let cmsg_len = self.len();
        push_u64_le(buf, cmsg_len as u64);
        push_u32_le(buf, i32_to_u32(self.level()));
        push_u32_le(buf, i32_to_u32(self.type_code()));
        self.encode_payload(buf);
        proof {
            assert(buf@ =~= old(buf)@ + encoded_one(self@));
        }
        if pad {
            let space = cmsg_align(cmsg_len);
            push_zeros(buf, space - cmsg_len);
            proof {
                assert(buf@ =~= old(buf)@ + encoded_one_padded(self@));
            }
        }
    }

    /// The protocol level this message's header carries.
    pub fn level(&self) -> (r: i32)
        ensures
            r == level_of(self@),
    {
        match self {
            ControlMessage::ScmRights(_) => SOL_SOCKET,
            ControlMessage::ScmTimestamp(_) => SOL_SOCKET,
            ControlMessage::Unknown(u) => u.cmsg_level,
        }
    }

    /// The message type this message's header carries.
    pub fn type_code(&self) -> (r: i32)
        ensures
            r == type_of(self@),
    {
        match self {
            ControlMessage::ScmRights(_) => SCM_RIGHTS,
            ControlMessage::ScmTimestamp(_) => SCM_TIMESTAMP,
            ControlMessage::Unknown(u) => u.cmsg_type,
        }
    }
}

/// Extending a rights payload by one handle appends that handle's four
/// bytes.
pub proof fn lemma_fd_bytes_snoc(fds: Seq<i32>, i: int)
    requires
        0 <= i < fds.len(),
    ensures
        fd_bytes(fds.take(i + 1)) == fd_bytes(fds.take(i)) + spec_u32_to_le_bytes(
            u32_of_i32(fds[i]),
        ),
{
    lemma_le_bytes_len();
    let lhs = fd_bytes(fds.take(i + 1));
    let rhs = fd_bytes(fds.take(i)) + spec_u32_to_le_bytes(u32_of_i32(fds[i]));
    assert(lhs.len() == rhs.len());
    assert forall|j: int| 0 <= j < lhs.len() implies lhs[j] == rhs[j] by {
        vstd::arithmetic::div_mod::lemma_fundamental_div_mod(j, 4);
        if j < 4 * i {
            assert(j / 4 < i);
        } else {
            assert(j / 4 == i);
            assert(j % 4 == j - 4 * i);
        }
    };
    assert(lhs =~= rhs);
}

/// The encoding of a message list, extended by one more message, grows by
/// that message's record: unpadded when it is the first, padded otherwise.
pub proof fn lemma_encoded_cmsgs_snoc(ms: Seq<CmsgModel>, i: int)
    requires
        0 <= i < ms.len(),
    ensures
        encoded_cmsgs(ms.take(i + 1)) == encoded_cmsgs(ms.take(i)) + (if i == 0 {
            encoded_one(ms[0])
        } else {
            encoded_one_padded(ms[i])
        }),
    decreases i,
{
    if i == 0 {
        reveal_with_fuel(encoded_tail, 2);
        assert(ms.take(1) =~= seq![ms[0]]);
        assert(ms.take(1).drop_first() =~= Seq::<CmsgModel>::empty());
        assert(encoded_cmsgs(ms.take(0)) =~= Seq::<u8>::empty());
        assert(encoded_cmsgs(ms.take(1)) =~= encoded_one(ms[0]));
    } else {
        lemma_encoded_tail_snoc(ms.drop_first(), i - 1);
        assert(ms.take(i + 1).drop_first() =~= ms.drop_first().take(i));
        assert(ms.take(i).drop_first() =~= ms.drop_first().take(i - 1));
        assert(ms.take(i + 1)[0] == ms[0]);
        assert(ms.take(i)[0] == ms[0]);
        assert(ms.drop_first()[i - 1] == ms[i]);
        assert(encoded_cmsgs(ms.take(i + 1)) =~= encoded_cmsgs(ms.take(i))
            + encoded_one_padded(ms[i]));
    }
}

/// The padded encoding of a tail list, extended by one message, grows by
/// that message's padded record.
pub proof fn lemma_encoded_tail_snoc(ms: Seq<CmsgModel>, i: int)
    requires
        0 <= i < ms.len(),
    ensures
        encoded_tail(ms.take(i + 1)) == encoded_tail(ms.take(i)) + encoded_one_padded(ms[i]),
    decreases i,
{
    if i == 0 {
        reveal_with_fuel(encoded_tail, 2);
        assert(ms.take(1) =~= seq![ms[0]]);
        assert(ms.take(1).drop_first() =~= Seq::<CmsgModel>::empty());
        assert(encoded_tail(ms.take(1)) =~= encoded_one_padded(ms[0]));
        assert(encoded_tail(ms.take(0)) =~= Seq::<u8>::empty());
    } else {
        lemma_encoded_tail_snoc(ms.drop_first(), i - 1);
        assert(ms.take(i + 1).drop_first() =~= ms.drop_first().take(i));
        assert(ms.take(i).drop_first() =~= ms.drop_first().take(i - 1));
        assert(ms.take(i + 1)[0] == ms[0]);
        assert(ms.take(i)[0] == ms[0]);
        assert(ms.drop_first()[i - 1] == ms[i]);
        assert(encoded_tail(ms.take(i + 1)) =~= encoded_tail(ms.take(i))
            + encoded_one_padded(ms[i]));
    }
}

/// Every message of a list is small enough for the machine's word size.
pub open spec fn all_wf(ms: Seq<CmsgModel>) -> bool {
    forall|i: int| 0 <= i < ms.len() ==> wf_cmsg(#[trigger] ms[i])
}

/// Encode a list of control messages into one contiguous ancillary buffer.
/// An empty list yields an empty buffer.
pub fn encode_cmsgs(cmsgs: &Vec<ControlMessage>) -> (r: Vec<u8>)
    requires
        all_wf(cmsgs@.map_values(|m: ControlMessage| m@)),
    ensures
        r@ == encoded_cmsgs(cmsgs@.map_values(|m: ControlMessage| m@)),
{
    let ghost views = cmsgs@.map_values(|m: ControlMessage| m@);
    let mut buf: Vec<u8> = Vec::new();
    let n = cmsgs.len();
    let mut i: usize = 0;
    while i < n
        invariant
            i <= n,
            n == cmsgs@.len(),
            views == cmsgs@.map_values(|m: ControlMessage| m@),
            all_wf(views),
            buf@ == encoded_cmsgs(views.take(i as int)),
        decreases n - i,
    {
        assert(views[i as int] == cmsgs@[i as int]@);
        cmsgs[i].encode_into(&mut buf, i > 0);
        proof {
            lemma_encoded_cmsgs_snoc(views, i as int);
        }
        i += 1;
    }
    proof {
        assert(views.take(n as int) =~= views);
    }
    buf
}


/// The handles stored in a rights payload: each group of four bytes read as
/// a little-endian two's-complement value; a trailing fragment shorter than
/// one handle is ignored.
pub open spec fn fds_of_bytes(s: Seq<u8>) -> Seq<i32> {
    Seq::new(s.len() / 4, |k: int| i32_of_u32(spec_u32_from_le_bytes(s.subrange(4 * k, 4 * k + 4))))
}

/// Classify a decoded record by its (level, type) pair: known rights become
/// a rights message, a known timestamp of the exact payload size becomes a
/// timestamp message, anything else is kept verbatim.
pub open spec fn classify(level: i32, typ: i32, payload: Seq<u8>) -> CmsgModel {
    if level == SOL_SOCKET && typ == SCM_RIGHTS {
        CmsgModel::Rights(fds_of_bytes(payload))
    } else if level == SOL_SOCKET && typ == SCM_TIMESTAMP && payload.len() == TIMEVAL_LEN {
        CmsgModel::Timestamp(
            i64_of_u64(spec_u64_from_le_bytes(payload.subrange(0, 8))),
            i64_of_u64(spec_u64_from_le_bytes(payload.subrange(8, 16))),
        )
    } else {
        CmsgModel::Unknown(level, typ, payload)
    }
}

/// One decode step at `pos`. It stops (`None`) when fewer bytes than one
/// header remain, when the declared total length is shorter than a header,
/// or when the advance distance would pass the buffer end. Otherwise it
/// yields the classified message and the next cursor position: the first
/// record advances by the unpadded declared length, every later record by
/// the padded length.
pub open spec fn decode_step(b: Seq<u8>, pos: int, first: bool) -> Option<(CmsgModel, int)>
    recommends
        0 <= pos <= b.len(),
{
    if pos + CMSG_HDR_LEN > b.len() {
        None
    } else {
        let cl = spec_u64_from_le_bytes(b.subrange(pos, pos + 8)) as int;
        let level = i32_of_u32(spec_u32_from_le_bytes(b.subrange(pos + 8, pos + 12)));
        let typ = i32_of_u32(spec_u32_from_le_bytes(b.subrange(pos + 12, pos + 16)));
        if cl < CMSG_HDR_LEN {
            None
        } else {
            let adv = if first {
                cl
            } else {
                spec_align(cl as nat) as int
            };
            if pos + adv > b.len() {
                None
            } else {
                Some((classify(level, typ, b.subrange(pos + CMSG_HDR_LEN, pos + cl)), pos + adv))
            }
        }
    }
}

/// A successful decode step advances the cursor by at least one header
/// length and never past the buffer end: decoding is truncation-safe and
/// terminates.
pub proof fn lemma_decode_step_bounds(b: Seq<u8>, pos: int, first: bool)
    requires
        0 <= pos <= b.len(),
    ensures
        decode_step(b, pos, first) matches Some((m, p)) ==> pos + CMSG_HDR_LEN <= p <= b.len(),
{
    if decode_step(b, pos, first) is Some {
        let cl = spec_u64_from_le_bytes(b.subrange(pos, pos + 8)) as int;
        lemma_align_bounds(cl as nat);
    }
}

/// Every message decoded from `b` starting at `pos`, in order, up to the
/// first stop condition.
pub open spec fn decoded_cmsgs(b: Seq<u8>, pos: int, first: bool) -> Seq<CmsgModel>
    recommends
        0 <= pos <= b.len(),
    decreases b.len() - pos,
    when 0 <= pos <= b.len()
    via decoded_cmsgs_decreases
{
    match decode_step(b, pos, first) {
        None => Seq::empty(),
        Some((m, p)) => seq![m] + decoded_cmsgs(b, p, false),
    }
}

#[via_fn]
proof fn decoded_cmsgs_decreases(b: Seq<u8>, pos: int, first: bool) {
    lemma_decode_step_bounds(b, pos, first);
}

/// A lazy, non-restartable cursor over the control messages stored in an
/// ancillary buffer.
pub struct CmsgIterator<'a> {
    buf: &'a [u8],
    pos: usize,
    next: usize,
}

impl<'a> CmsgIterator<'a> {
    /// The cursor stands inside the buffer, at the start as long as no
    /// message has been yielded.
    pub closed spec fn wf(self) -> bool {
        self.next <= self.pos && self.pos <= self.buf@.len()
    }

    /// The bytes the iterator walks.
    pub closed spec fn buf_view(self) -> Seq<u8> {
        self.buf@
    }

    /// The current cursor position.
    pub closed spec fn pos_of(self) -> int {
        self.pos as int
    }

    /// Whether the next record is the first of the buffer.
    pub closed spec fn is_first(self) -> bool {
        self.next == 0
    }

    /// The messages still to be yielded.
    pub closed spec fn remaining(self) -> Seq<CmsgModel> {
        decoded_cmsgs(self.buf@, self.pos as int, self.next == 0)
    }

    /// A fresh iterator over `buf`, standing at its start.
    pub fn new(buf: &'a [u8]) -> (r: Self)
        ensures
            r.wf(),
            r.buf_view() == buf@,
            r.pos_of() == 0,
            r.is_first(),
            r.remaining() == decoded_cmsgs(buf@, 0, true),
    {
        CmsgIterator { buf, pos: 0, next: 0 }
    }

    /// Yield the next control message, or `None` at the first stop
    /// condition; stopping is permanent because the cursor does not move.
    pub fn next(&mut self) -> (r: Option<ControlMessage>)
        requires
            old(self).wf(),
        ensures
            final(self).wf(),
            final(self).buf_view() == old(self).buf_view(),
            match decode_step(old(self).buf_view(), old(self).pos_of(), old(self).is_first()) {
                None => {
                    &&& r is None
                    &&& final(self).pos_of() == old(self).pos_of()
                    &&& final(self).is_first() == old(self).is_first()
                },
                Some((m, p)) => {
                    &&& r is Some
                    &&& r->Some_0@ == m
                    &&& final(self).pos_of() == p
                    &&& !final(self).is_first()
                    &&& old(self).remaining() == seq![m] + final(self).remaining()
                },
            },
    {
        let n: usize = self.buf.len();
        let remaining = n - self.pos;
        if remaining < CMSG_HDR_LEN {
            return None;
        }
        let cl64 = read_u64_le(self.buf, self.pos);
        if cl64 < CMSG_HDR_LEN as u64 {
            return None;
        }
        if cl64 > remaining as u64 {
            proof {
                if !old(self).is_first() {
                    lemma_align_bounds(cl64 as nat);
                }
            }
            return None;
        }
        let clu = cl64 as usize;
        let adv: usize;
        if self.next == 0 {
            adv = clu;
        } else {
            let pad = (CMSG_ALIGN_UNIT - clu % CMSG_ALIGN_UNIT) % CMSG_ALIGN_UNIT;
            proof {
                lemma_align_pad(clu as nat);
            }
            if pad > remaining - clu {
                return None;
            }
            adv = clu + pad;
        }
        let level = u32_to_i32(read_u32_le(self.buf, self.pos + 8));
        let typ = u32_to_i32(read_u32_le(self.buf, self.pos + 12));
        let plen = clu - CMSG_HDR_LEN;
        let payload_at = self.pos + CMSG_HDR_LEN;
        let ghost payload = self.buf@.subrange(payload_at as int, payload_at + plen);
        let msg: ControlMessage;
        if level == SOL_SOCKET && typ == SCM_RIGHTS {
            let nf = plen / 4;
            proof {
                vstd::arithmetic::div_mod::lemma_fundamental_div_mod(plen as int, 4);
            }
            let mut fds: Vec<i32> = Vec::new();
            let mut k: usize = 0;
            while k < nf
                invariant
                    k <= nf,
                    nf == plen / 4,
                    plen == clu - CMSG_HDR_LEN,
                    4 * nf <= plen,
                    payload_at + plen <= self.buf@.len(),
                    self.buf@.len() <= usize::MAX,
                    payload_at == self.pos + CMSG_HDR_LEN,
                    payload == self.buf@.subrange(payload_at as int, payload_at + plen),
                    fds@ == fds_of_bytes(payload).take(k as int),
                decreases nf - k,
            {
                let w = read_u32_le(self.buf, payload_at + 4 * k);
                fds.push(u32_to_i32(w));
                proof {
                    assert(payload.subrange(4 * k as int, 4 * k + 4) =~= self.buf@.subrange(
                        payload_at + 4 * k,
                        payload_at + 4 * k + 4,
                    ));
                    assert(fds@ =~= fds_of_bytes(payload).take(k + 1));
                }
                k += 1;
            }
            proof {
                assert(fds_of_bytes(payload).take(nf as int) =~= fds_of_bytes(payload));
            }
            msg = ControlMessage::ScmRights(fds);
        } else if level == SOL_SOCKET && typ == SCM_TIMESTAMP && plen == TIMEVAL_LEN {
            let sec = u64_to_i64(read_u64_le(self.buf, payload_at));
            let usec = u64_to_i64(read_u64_le(self.buf, payload_at + 8));
            proof {
                assert(payload.subrange(0, 8) =~= self.buf@.subrange(
                    payload_at as int,
                    payload_at + 8,
                ));
                assert(payload.subrange(8, 16) =~= self.buf@.subrange(
                    payload_at + 8,
                    payload_at + 16,
                ));
            }
            msg = ControlMessage::ScmTimestamp(TimeVal { tv_sec: sec, tv_usec: usec });
        } else {
            let data = vstd::slice::slice_to_vec(vstd::slice::slice_subrange(
                self.buf,
                payload_at,
                payload_at + plen,
            ));
            msg = ControlMessage::Unknown(UnknownCmsg { cmsg_level: level, cmsg_type: typ, data });
        }
        self.pos = self.pos + adv;
        self.next = self.next + 1;
        Some(msg)
    }
}

/// Rounding to the alignment unit adds exactly the distance to the next
/// multiple.
pub proof fn lemma_align_pad(n: nat)
    ensures
        spec_align(n) == n + ((8 - (n % 8)) % 8),
{
    assert(((n + 7) / 8) * 8 == n + ((8 - (n % 8)) % 8)) by (nonlinear_arith);
}


/// A message whose classification survives a round trip: rights and
/// timestamp messages always do; an unknown message must not reuse a
/// (level, type) pair that the decoder recognizes.
pub open spec fn decodable(m: CmsgModel) -> bool {
    match m {
        CmsgModel::Rights(_) => true,
        CmsgModel::Timestamp(_, _) => true,
        CmsgModel::Unknown(level, typ, data) => !(level == SOL_SOCKET && typ == SCM_RIGHTS) && !(
        level == SOL_SOCKET && typ == SCM_TIMESTAMP && data.len() == TIMEVAL_LEN),
    }
}

/// Every message of a list survives classification.
pub open spec fn all_decodable(ms: Seq<CmsgModel>) -> bool {
    forall|i: int| 0 <= i < ms.len() ==> decodable(#[trigger] ms[i])
}

/// Reading a rights payload back yields the handles it was built from, in
/// order.
pub proof fn lemma_fds_round_trip(fds: Seq<i32>)
    ensures
        fds_of_bytes(fd_bytes(fds)) == fds,
{
    lemma_le_bytes_len();
    lemma_auto_spec_u32_to_from_le_bytes();
    let b = fd_bytes(fds);
    assert(b.len() == 4 * fds.len());
    assert(b.len() / 4 == fds.len()) by (nonlinear_arith)
        requires
            b.len() == 4 * fds.len(),
    ;
    let r = fds_of_bytes(b);
    assert forall|k: int| 0 <= k < fds.len() implies r[k] == fds[k] by {
        assert(b.subrange(4 * k, 4 * k + 4) =~= spec_u32_to_le_bytes(u32_of_i32(fds[k]))) by {
            assert forall|j: int| 0 <= j < 4 implies b[4 * k + j] == spec_u32_to_le_bytes(
                u32_of_i32(fds[k]),
            )[j] by {
                vstd::arithmetic::div_mod::lemma_fundamental_div_mod_converse(4 * k + j, 4, k, j);
            }
        }
    };
    assert(r =~= fds);
}

/// Classifying a message's own header pair and payload gives the message
/// back.
pub proof fn lemma_classify_encoded(m: CmsgModel)
    requires
        decodable(m),
    ensures
        classify(level_of(m), type_of(m), payload_of(m)) == m,
{
    lemma_le_bytes_len();
    match m {
        CmsgModel::Rights(fds) => {
            lemma_fds_round_trip(fds);
        },
        CmsgModel::Timestamp(sec, usec) => {
            lemma_auto_spec_u64_to_from_le_bytes();
            let p = payload_of(m);
            assert(p.subrange(0, 8) =~= spec_u64_to_le_bytes(u64_of_i64(sec)));
            assert(p.subrange(8, 16) =~= spec_u64_to_le_bytes(u64_of_i64(usec)));
        },
        CmsgModel::Unknown(_, _, _) => {},
    }
}

/// Where the bytes of one encoded record stand at `pos`, a decode step
/// yields exactly that message and advances by its unpadded length when it
/// is the first record, by its padded length otherwise.
pub proof fn lemma_decode_step_on(b: Seq<u8>, pos: int, m: CmsgModel, first: bool)
    requires
        wf_cmsg(m),
        decodable(m),
        0 <= pos,
        pos + (if first {
            cmsg_len_of(m) as int
        } else {
            cmsg_space_of(m) as int
        }) <= b.len(),
        b.subrange(pos, pos + cmsg_len_of(m)) == encoded_one(m),
    ensures
        decode_step(b, pos, first) == Some(
            (
                m,
                pos + (if first {
                    cmsg_len_of(m) as int
                } else {
                    cmsg_space_of(m) as int
                }),
            ),
        ),
{
    lemma_le_bytes_len();
    lemma_auto_spec_u64_to_from_le_bytes();
    lemma_auto_spec_u32_to_from_le_bytes();
    lemma_encoded_one_len(m);
    lemma_align_bounds(cmsg_len_of(m));
    let cl_val = cmsg_len_of(m) as u64;
    let enc = encoded_one(m);
    assert(b.subrange(pos, pos + 8) =~= spec_u64_to_le_bytes(cl_val)) by {
        assert forall|j: int| 0 <= j < 8 implies b.subrange(pos, pos + 8)[j] == spec_u64_to_le_bytes(
            cl_val,
        )[j] by {
            assert(b.subrange(pos, pos + cmsg_len_of(m))[j] == enc[j]);
        }
    }
    assert(spec_u64_from_le_bytes(b.subrange(pos, pos + 8)) == cl_val);
    let lv = u32_of_i32(level_of(m));
    let tv = u32_of_i32(type_of(m));
    assert(b.subrange(pos + 8, pos + 12) =~= spec_u32_to_le_bytes(lv)) by {
        assert forall|j: int| 0 <= j < 4 implies b.subrange(pos + 8, pos + 12)[j]
            == spec_u32_to_le_bytes(lv)[j] by {
            assert(b.subrange(pos, pos + cmsg_len_of(m))[8 + j] == enc[8 + j]);
        }
    }
    assert(b.subrange(pos + 12, pos + 16) =~= spec_u32_to_le_bytes(tv)) by {
        assert forall|j: int| 0 <= j < 4 implies b.subrange(pos + 12, pos + 16)[j]
            == spec_u32_to_le_bytes(tv)[j] by {
            assert(b.subrange(pos, pos + cmsg_len_of(m))[12 + j] == enc[12 + j]);
        }
    }
    lemma_i32_u32_round_trip(level_of(m));
    lemma_i32_u32_round_trip(type_of(m));
    assert(b.subrange(pos + CMSG_HDR_LEN, pos + cmsg_len_of(m)) =~= payload_of(m)) by {
        assert forall|j: int| 0 <= j < payload_of(m).len() implies b.subrange(
            pos + CMSG_HDR_LEN,
            pos + cmsg_len_of(m),
        )[j] == payload_of(m)[j] by {
            assert(b.subrange(pos, pos + cmsg_len_of(m))[CMSG_HDR_LEN + j] == enc[CMSG_HDR_LEN
                + j]);
        }
    }
    lemma_classify_encoded(m);
}

/// Decoding from `pos` inverts the padded encoding of a message list that
/// fills the rest of the buffer.
proof fn lemma_decoded_tail(b: Seq<u8>, pos: int, ms: Seq<CmsgModel>)
    requires
        all_wf(ms),
        all_decodable(ms),
        0 <= pos <= b.len(),
        b.subrange(pos, b.len() as int) == encoded_tail(ms),
    ensures
        decoded_cmsgs(b, pos, false) == ms,
    decreases ms.len(),
{
    lemma_encoded_tail_len(ms);
    if ms.len() == 0 {
        assert(decode_step(b, pos, false) is None);
    } else {
        let m = ms[0];
        assert(wf_cmsg(m) && decodable(m));
        lemma_encoded_one_len(m);
        lemma_encoded_tail_len(ms.drop_first());
        let clen = cmsg_len_of(m) as int;
        let space = cmsg_space_of(m) as int;
        lemma_align_bounds(cmsg_len_of(m));
        assert(b.len() - pos == encoded_tail(ms).len());
        assert(b.subrange(pos, pos + clen) =~= encoded_one(m)) by {
            assert forall|j: int| 0 <= j < clen implies b.subrange(pos, pos + clen)[j]
                == encoded_one(m)[j] by {
                assert(b.subrange(pos, b.len() as int)[j] == encoded_tail(ms)[j]);
                assert(encoded_tail(ms)[j] == encoded_one_padded(m)[j]);
                assert(encoded_one_padded(m)[j] == encoded_one(m)[j]);
            }
        }
        lemma_decode_step_on(b, pos, m, false);
        assert(b.subrange(pos + space, b.len() as int) =~= encoded_tail(ms.drop_first())) by {
            assert forall|j: int| 0 <= j < b.len() - pos - space implies b.subrange(
                pos + space,
                b.len() as int,
            )[j] == encoded_tail(ms.drop_first())[j] by {
                assert(b.subrange(pos, b.len() as int)[space + j] == encoded_tail(ms)[space + j]);
                assert(encoded_tail(ms)[space + j] == encoded_tail(ms.drop_first())[j]);
            }
        }
        lemma_decoded_tail(b, pos + space, ms.drop_first());
        assert(decoded_cmsgs(b, pos, false) =~= seq![m] + ms.drop_first());
        assert(seq![m] + ms.drop_first() =~= ms);
    }
}

/// The encoded forms of a message list have exactly the summed lengths.
pub proof fn lemma_encoded_tail_len(ms: Seq<CmsgModel>)
    ensures
        ms.len() == 0 ==> encoded_tail(ms).len() == 0,
        ms.len() > 0 ==> encoded_tail(ms).len() == cmsg_space_of(ms[0]) + encoded_tail(
            ms.drop_first(),
        ).len(),
{
    if ms.len() > 0 {
        lemma_encoded_one_len(ms[0]);
    }
}

/// Round trip: decoding the buffer that encodes a message list yields the
/// same messages, equal in type, order and payload. Unknown messages must
/// not reuse a (level, type) pair the decoder recognizes. The empty list
/// encodes to the empty buffer, which decodes to no messages.
pub proof fn lemma_cmsg_round_trip(ms: Seq<CmsgModel>)
    requires
        all_wf(ms),
        all_decodable(ms),
    ensures
        decoded_cmsgs(encoded_cmsgs(ms), 0, true) == ms,
{
    let b = encoded_cmsgs(ms);
    if ms.len() == 0 {
        assert(decode_step(b, 0, true) is None);
    } else {
        let m = ms[0];
        assert(wf_cmsg(m) && decodable(m));
        lemma_encoded_one_len(m);
        lemma_encoded_tail_len(ms.drop_first());
        let clen = cmsg_len_of(m) as int;
        assert(b.subrange(0, clen) =~= encoded_one(m));
        lemma_decode_step_on(b, 0, m, true);
        assert(b.subrange(clen, b.len() as int) =~= encoded_tail(ms.drop_first()));
        lemma_decoded_tail(b, clen, ms.drop_first());
        assert(decoded_cmsgs(b, 0, true) =~= seq![m] + ms.drop_first());
        assert(seq![m] + ms.drop_first() =~= ms);
    }
}


/// Alignment law: a message's padded length is the smallest multiple of
/// the alignment unit that is at least its header-plus-payload length.
pub proof fn lemma_space_smallest(m: CmsgModel)
    ensures
        cmsg_space_of(m) % (CMSG_ALIGN_UNIT as nat) == 0,
        cmsg_space_of(m) >= CMSG_HDR_LEN + payload_of(m).len(),
        forall|k: nat|
            #[trigger] (k % (CMSG_ALIGN_UNIT as nat)) == 0 && k >= CMSG_HDR_LEN + payload_of(
                m,
            ).len() ==> k >= cmsg_space_of(m),
{
    lemma_align_bounds(cmsg_len_of(m));
    assert forall|k: nat|
        #[trigger] (k % (CMSG_ALIGN_UNIT as nat)) == 0 && k >= CMSG_HDR_LEN + payload_of(m).len()
        implies k >= cmsg_space_of(m) by {
        crate::lemma_align_smallest(cmsg_len_of(m), k);
    }
}

/// An empty message list encodes to a zero-length buffer, and a
/// zero-length buffer decodes to no messages.
pub proof fn lemma_empty_codec()
    ensures
        encoded_cmsgs(Seq::<CmsgModel>::empty()).len() == 0,
        decoded_cmsgs(Seq::<u8>::empty(), 0, true) == Seq::<CmsgModel>::empty(),
{
    assert(decode_step(Seq::<u8>::empty(), 0, true) is None);
}

} // verus!
