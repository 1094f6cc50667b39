//! HSMS (SEMI E37/E37.1, single selected session) message framing and session
//! state handling.
//!
//! Wire format: a 4-byte big-endian total length, then a 10-byte header, then
//! (for data messages only) a SECS-II body.
//!
//! Header layout (SEMI E37, Figure 1):
//! bytes 1-2 session ID, byte 3 W-bit + stream, byte 4 function, byte 5 PType
//! (0 = SECS-II), byte 6 SType, bytes 7-10 system bytes.

use crate::secs::error::SecsError;
use crate::secs::item::{
    be2, be2_at, be4, be4_at, from_be2, from_be4, lemma_be4_roundtrip, lemma_item_roundtrip, push_be2, push_be4, sp_item,
    val_bytes, val_ok, ItemVal, SecsItem,
};
use crate::text::push_bytes;
use vstd::prelude::*;

verus! {

/// Connection state per SEMI E37.1 Figure 3, reduced to the states the
/// single-session transport moves through.
#[derive(Debug, Clone, Copy, PartialEq, Eq, Structural)]
pub enum HsmsState {
    /// TCP connection not established.
    NotConnected,
    /// TCP established, no Select exchanged yet (NOT SELECTED).
    ConnectedNotSelected,
    /// Select completed (SELECTED): SECS-II data may flow.
    Selected,
}


/// HSMS SType values (SEMI E37, Table 1).
#[derive(Debug, Clone, Copy, PartialEq, Eq, Structural)]
pub enum SType {
    /// SECS-II data message.
    Data,
    SelectReq,
    SelectRsp,
    DeselectReq,
    DeselectRsp,
    LinktestReq,
    LinktestRsp,
    RejectReq,
    SeparateReq,
}

impl SType {
    /// The SType byte.
    pub open spec fn value(self) -> u8 {
        match self {
            SType::Data => 0,
            SType::SelectReq => 1,
            SType::SelectRsp => 2,
            SType::DeselectReq => 3,
            SType::DeselectRsp => 4,
            SType::LinktestReq => 5,
            SType::LinktestRsp => 6,
            SType::RejectReq => 7,
            SType::SeparateReq => 9,
        }
    }

    /// The SType a byte names, if any.
    pub open spec fn of_byte(v: u8) -> Option<SType> {
        if v == 0 {
            Some(SType::Data)
        } else if v == 1 {
            Some(SType::SelectReq)
        } else if v == 2 {
            Some(SType::SelectRsp)
        } else if v == 3 {
            Some(SType::DeselectReq)
        } else if v == 4 {
            Some(SType::DeselectRsp)
        } else if v == 5 {
            Some(SType::LinktestReq)
        } else if v == 6 {
            Some(SType::LinktestRsp)
        } else if v == 7 {
            Some(SType::RejectReq)
        } else if v == 9 {
            Some(SType::SeparateReq)
        } else {
            None
        }
    }

    fn from_u8(v: u8) -> (t: Option<SType>)
        ensures
            t == SType::of_byte(v),
    {
        if v == 0 {
            Some(SType::Data)
        } else if v == 1 {
            Some(SType::SelectReq)
        } else if v == 2 {
            Some(SType::SelectRsp)
        } else if v == 3 {
            Some(SType::DeselectReq)
        } else if v == 4 {
            Some(SType::DeselectRsp)
        } else if v == 5 {
            Some(SType::LinktestReq)
        } else if v == 6 {
            Some(SType::LinktestRsp)
        } else if v == 7 {
            Some(SType::RejectReq)
        } else if v == 9 {
            Some(SType::SeparateReq)
        } else {
            None
        }
    }
}

/// Select.rsp select-status codes (SEMI E37.1, Section 5.3.2).
#[derive(Debug, Clone, Copy, PartialEq, Eq, Structural)]
pub enum SelectStatus {
    /// Select accepted: session is now Selected.
    Selected,
    /// Select rejected: connection already selected.
    AlreadySelected,
    /// Select rejected by the remote side.
    NotSelected,
}

impl SelectStatus {
    /// The status byte.
    pub open spec fn value(self) -> u8 {
        match self {
            SelectStatus::Selected => 0,
            SelectStatus::AlreadySelected => 1,
            SelectStatus::NotSelected => 2,
        }
    }

    /// The status a byte carries (anything unknown reads as `NotSelected`).
    pub open spec fn of_byte(v: u8) -> SelectStatus {
        if v == 0 {
            SelectStatus::Selected
        } else if v == 1 {
            SelectStatus::AlreadySelected
        } else {
            SelectStatus::NotSelected
        }
    }

    /// The status byte.
    pub fn code(self) -> (c: u8)
        ensures
            c == self.value(),
    {
        match self {
            SelectStatus::Selected => 0,
            SelectStatus::AlreadySelected => 1,
            SelectStatus::NotSelected => 2,
        }
    }
}

/// Reject.req reason codes (SEMI E37, Table 2).
#[derive(Debug, Clone, Copy, PartialEq, Eq, Structural)]
pub enum RejectReason {
    NotSelected,
    InsufficientResources,
    UnrecognizedParameter,
    IllegalStatus,
    TimerExpired,
    Congestion,
}

impl RejectReason {
    /// The reason byte.
    pub open spec fn value(self) -> u8 {
        match self {
            RejectReason::NotSelected => 1,
            RejectReason::InsufficientResources => 2,
            RejectReason::UnrecognizedParameter => 3,
            RejectReason::IllegalStatus => 4,
            RejectReason::TimerExpired => 5,
            RejectReason::Congestion => 6,
        }
    }

    /// The reason byte.
    pub fn code(self) -> (c: u8)
        ensures
            c == self.value(),
    {
        match self {
            RejectReason::NotSelected => 1,
            RejectReason::InsufficientResources => 2,
            RejectReason::UnrecognizedParameter => 3,
            RejectReason::IllegalStatus => 4,
            RejectReason::TimerExpired => 5,
            RejectReason::Congestion => 6,
        }
    }
}

/// An HSMS message.
#[derive(Debug, PartialEq)]
pub enum HsmsMessage {
    Data {
        session_id: u16,
        stream: u8,
        function: u8,
        /// W-bit: primary expects a reply.
        w_bit: bool,
        system_bytes: u32,
        body: Option<SecsItem>,
    },
    SelectReq { system_bytes: u32 },
    SelectRsp { system_bytes: u32, status: SelectStatus },
    LinktestReq { system_bytes: u32 },
    LinktestRsp { system_bytes: u32 },
    Separate { system_bytes: u32 },
    Reject {
        system_bytes: u32,
        reason: u8,
        /// Stream/function of the message being rejected (raw header bytes 3-4).
        rejected_s: u8,
        rejected_f: u8,
    },
}

/// The value of an HSMS message (a data body by its item value).
pub enum MsgVal {
    Data { session_id: u16, stream: u8, function: u8, w_bit: bool, system_bytes: u32, body: Option<ItemVal> },
    SelectReq { system_bytes: u32 },
    SelectRsp { system_bytes: u32, status: SelectStatus },
    LinktestReq { system_bytes: u32 },
    LinktestRsp { system_bytes: u32 },
    Separate { system_bytes: u32 },
    Reject { system_bytes: u32, reason: u8, rejected_s: u8, rejected_f: u8 },
}

impl View for HsmsMessage {
    type V = MsgVal;

    open spec fn view(&self) -> MsgVal {
        match self {
            HsmsMessage::Data { session_id, stream, function, w_bit, system_bytes, body } => MsgVal::Data {
                session_id: *session_id,
                stream: *stream,
                function: *function,
                w_bit: *w_bit,
                system_bytes: *system_bytes,
                body: match body { Some(b) => Some(b@), None => None },
            },
            HsmsMessage::SelectReq { system_bytes } => MsgVal::SelectReq { system_bytes: *system_bytes },
            HsmsMessage::SelectRsp { system_bytes, status } => MsgVal::SelectRsp { system_bytes: *system_bytes, status: *status },
            HsmsMessage::LinktestReq { system_bytes } => MsgVal::LinktestReq { system_bytes: *system_bytes },
            HsmsMessage::LinktestRsp { system_bytes } => MsgVal::LinktestRsp { system_bytes: *system_bytes },
            HsmsMessage::Separate { system_bytes } => MsgVal::Separate { system_bytes: *system_bytes },
            HsmsMessage::Reject { system_bytes, reason, rejected_s, rejected_f } => MsgVal::Reject {
                system_bytes: *system_bytes,
                reason: *reason,
                rejected_s: *rejected_s,
                rejected_f: *rejected_f,
            },
        }
    }
}

/// A control header: session 0, no stream/function, PType 0, the SType and
/// the system bytes.
pub open spec fn control_header(stype: u8, sb: u32) -> Seq<u8> {
    seq![0u8, 0u8, 0u8, 0u8, 0u8, stype] + be4(sb)
}

/// The 10-byte header of a message.
pub open spec fn header_of(m: MsgVal) -> Seq<u8> {
    match m {
        MsgVal::Data { session_id, stream, function, w_bit, system_bytes, .. } =>
            be2(session_id) + seq![(stream % 128 + if w_bit { 128int } else { 0int }) as u8, function % 128, 0u8, 0u8]
                + be4(system_bytes),
        MsgVal::SelectReq { system_bytes } => control_header(1, system_bytes),
        MsgVal::SelectRsp { system_bytes, status } => control_header(2, system_bytes).update(9, status.value()),
        MsgVal::LinktestReq { system_bytes } => control_header(5, system_bytes),
        MsgVal::LinktestRsp { system_bytes } => control_header(6, system_bytes),
        MsgVal::Separate { system_bytes } => control_header(9, system_bytes),
        MsgVal::Reject { system_bytes, reason, rejected_s, rejected_f } =>
            control_header(7, system_bytes).update(7, rejected_s).update(8, rejected_f).update(9, reason),
    }
}

/// The SECS-II body bytes of a message (data messages with a body only).
pub open spec fn body_of(m: MsgVal) -> Seq<u8> {
    match m {
        MsgVal::Data { body: Some(b), .. } => val_bytes(b),
        _ => Seq::empty(),
    }
}

/// The wire bytes of a message: 4-byte big-endian length (header plus body,
/// modulo 2^32), header, body.
pub open spec fn msg_bytes(m: MsgVal) -> Seq<u8> {
    be4(((10 + body_of(m).len()) % 0x1_0000_0000) as u32) + header_of(m) + body_of(m)
}

/// The message can be written: its body's counts fit SECS-II lengths.
pub open spec fn msg_ok(m: MsgVal) -> bool {
    match m {
        MsgVal::Data { body: Some(b), .. } => val_ok(b),
        _ => true,
    }
}

/// Decode the message a complete 10-byte header and its body describe.
pub open spec fn msg_from(h: Seq<u8>, body: Seq<u8>) -> Result<MsgVal, SecsError> {
    let stype = h[5];
    let sb = from_be4(h.subrange(6, 10));
    match SType::of_byte(stype) {
        Some(SType::Data) => {
            let b: Result<Option<ItemVal>, SecsError> = if body.len() == 0 {
                Ok(None)
            } else {
                match sp_item(body) {
                    Ok((v, r)) => if r.len() == 0 {
                        Ok(Some(v))
                    } else {
                        Err(SecsError::TrailingBytesAfterItem { count: r.len() as usize })
                    },
                    Err(e) => Err(e),
                }
            };
            match b {
                Ok(item) => Ok(MsgVal::Data {
                    session_id: from_be2(h.subrange(0, 2)),
                    stream: h[2] % 128,
                    function: h[3] % 128,
                    w_bit: h[2] >= 128,
                    system_bytes: sb,
                    body: item,
                }),
                Err(e) => Err(e),
            }
        },
        Some(SType::SelectReq) => Ok(MsgVal::SelectReq { system_bytes: sb }),
        Some(SType::SelectRsp) => Ok(MsgVal::SelectRsp { system_bytes: sb, status: SelectStatus::of_byte(h[9]) }),
        Some(SType::LinktestReq) => Ok(MsgVal::LinktestReq { system_bytes: sb }),
        Some(SType::LinktestRsp) => Ok(MsgVal::LinktestRsp { system_bytes: sb }),
        Some(SType::SeparateReq) => Ok(MsgVal::Separate { system_bytes: sb }),
        Some(SType::RejectReq) => Ok(MsgVal::Reject { system_bytes: sb, reason: h[9], rejected_s: h[7], rejected_f: h[8] }),
        _ => Ok(MsgVal::Reject { system_bytes: sb, reason: stype, rejected_s: h[7], rejected_f: h[8] }),
    }
}

/// Decode one message from the front of `d`: the message and how many bytes
/// its frame takes.
pub open spec fn sp_msg(d: Seq<u8>) -> Result<(MsgVal, nat), SecsError> {
    if d.len() < 4 {
        Err(SecsError::UnexpectedEof { wanted: 4, had: d.len() as usize })
    } else {
        let total = from_be4(d.take(4)) as nat;
        if total < 10 {
            Err(SecsError::BadHeaderSize(total as usize))
        } else if d.len() < 4 + total {
            Err(SecsError::UnexpectedEof { wanted: (4 + total) as usize, had: d.len() as usize })
        } else {
            let h = d.subrange(4, 14);
            if h[5] == 0 && h[4] != 0 {
                Err(SecsError::UnsupportedPType(h[4]))
            } else {
                match msg_from(h, d.subrange(14, 4 + total as int)) {
                    Ok(m) => Ok((m, 4 + total)),
                    Err(e) => Err(e),
                }
            }
        }
    }
}


impl HsmsMessage {
    /// Build a SECS-II data message. `stream`/`function` are the SxFy pair;
    /// `w_bit` marks a primary that expects a reply.
    pub fn data(session_id: u16, stream: u8, function: u8, w_bit: bool, system_bytes: u32, body: Option<SecsItem>) -> (m: HsmsMessage)
        ensures
            m == (HsmsMessage::Data { session_id, stream, function, w_bit, system_bytes, body }),
    {
        HsmsMessage::Data { session_id, stream, function, w_bit, system_bytes, body }
    }

    /// The system bytes of a message's value.
    pub open spec fn sb(m: MsgVal) -> u32 {
        match m {
            MsgVal::Data { system_bytes, .. } => system_bytes,
            MsgVal::SelectReq { system_bytes } => system_bytes,
            MsgVal::SelectRsp { system_bytes, .. } => system_bytes,
            MsgVal::LinktestReq { system_bytes } => system_bytes,
            MsgVal::LinktestRsp { system_bytes } => system_bytes,
            MsgVal::Separate { system_bytes } => system_bytes,
            MsgVal::Reject { system_bytes, .. } => system_bytes,
        }
    }

    /// The system bytes echoed back in replies and used to match transactions.
    pub fn system_bytes(&self) -> (sb: u32)
        ensures
            sb == HsmsMessage::sb(self@),
    {
        match self {
            HsmsMessage::Data { system_bytes, .. } => *system_bytes,
            HsmsMessage::SelectReq { system_bytes } => *system_bytes,
            HsmsMessage::SelectRsp { system_bytes, .. } => *system_bytes,
            HsmsMessage::LinktestReq { system_bytes } => *system_bytes,
            HsmsMessage::LinktestRsp { system_bytes } => *system_bytes,
            HsmsMessage::Separate { system_bytes } => *system_bytes,
            HsmsMessage::Reject { system_bytes, .. } => *system_bytes,
        }
    }

    /// If this is a data message, its (stream, function, w-bit, body) tuple.
    pub fn as_data(&self) -> (r: Option<(u8, u8, bool, &Option<SecsItem>)>)
        ensures
            match self {
                HsmsMessage::Data { stream, function, w_bit, body, .. } =>
                    r matches Some((s, f, w, b)) && s == *stream && f == *function && w == *w_bit && *b == *body,
                _ => r is None,
            },
    {
        match self {
            HsmsMessage::Data { stream, function, w_bit, body, .. } => Some((*stream, *function, *w_bit, body)),
            _ => None,
        }
    }

    /// Encode to the wire: 4-byte length prefix + 10-byte header + body.
    pub fn encode(&self, out: &mut Vec<u8>)
        requires
            msg_ok(self@),
        ensures
            final(out)@ == old(out)@ + msg_bytes(self@),
    {
        let mut header: Vec<u8> = Vec::new();
        let mut body: Vec<u8> = Vec::new();
        match self {
            HsmsMessage::Data { session_id, stream, function, w_bit, system_bytes, body: item } => {
                push_be2(*session_id, &mut header);
                let b2: u8 = if *w_bit { *stream % 128 + 128 } else { *stream % 128 };
                header.push(b2);
                header.push(*function % 128);
                header.push(0);
                header.push(0);
                push_be4(*system_bytes, &mut header);
                match item {
                    Some(it) => it.encode(&mut body),
                    None => {},
                }
            },
            HsmsMessage::SelectReq { system_bytes } => {
                push_control(1, *system_bytes, &mut header);
            },
            HsmsMessage::SelectRsp { system_bytes, status } => {
                push_control(2, *system_bytes, &mut header);
                header.set(9, status.code());
            },
            HsmsMessage::LinktestReq { system_bytes } => {
                push_control(5, *system_bytes, &mut header);
            },
            HsmsMessage::LinktestRsp { system_bytes } => {
                push_control(6, *system_bytes, &mut header);
            },
            HsmsMessage::Separate { system_bytes } => {
                push_control(9, *system_bytes, &mut header);
            },
            HsmsMessage::Reject { system_bytes, reason, rejected_s, rejected_f } => {
                push_control(7, *system_bytes, &mut header);
                header.set(7, *rejected_s);
                header.set(8, *rejected_f);
                header.set(9, *reason);
            },
        }
        assert(header@ =~= header_of(self@));
        assert(body@ =~= body_of(self@));
        let n = body.len();
        let t: u64 = (n as u64) % 0x1_0000_0000;
        let total: u32 = ((t + 10) % 0x1_0000_0000) as u32;
        proof {
            vstd::arithmetic::div_mod::lemma_add_mod_noop(n as int, 10, 0x1_0000_0000);
        }
        push_be4(total, out);
        push_bytes(out, header.as_slice());
        push_bytes(out, body.as_slice());
        assert(out@ =~= old(out)@ + msg_bytes(self@));
    }

    /// Whether the message's body, if any, can be encoded.
    pub fn is_encodable(&self) -> (b: bool)
        ensures
            b == msg_ok(self@),
    {
        match self {
            HsmsMessage::Data { body: Some(item), .. } => item.is_encodable(),
            _ => true,
        }
    }

    /// Encode to a fresh `Vec<u8>`.
    pub fn to_bytes(&self) -> (out: Vec<u8>)
        requires
            msg_ok(self@),
        ensures
            out@ == msg_bytes(self@),
    {
        let mut out: Vec<u8> = Vec::new();
        self.encode(&mut out);
        assert(out@ =~= msg_bytes(self@));
        out
    }

    /// Decode one message from the front of `data`. Returns the message and
    /// how many bytes it consumed.
    pub fn from_bytes(data: &[u8]) -> (res: Result<(HsmsMessage, usize), SecsError>)
        ensures
            match sp_msg(data@) {
                Ok((m, used)) => res matches Ok((msg, n)) && msg@ == m && n == used,
                Err(e) => res == Err::<(HsmsMessage, usize), SecsError>(e),
            },
    {
        if data.len() < 4 {
            return Err(SecsError::UnexpectedEof { wanted: 4, had: data.len() });
        }
        let total_u32 = be4_at(data, 0);
        assert(data@.subrange(0, 4) =~= data@.take(4));
        let total = total_u32 as usize;
        if total < 10 {
            return Err(SecsError::BadHeaderSize(total));
        }
        if data.len() - 4 < total {
            let wanted: usize = if total <= usize::MAX - 4 { total + 4 } else { #[verifier::truncate] ((total_u32 as u64 + 4) as usize) };
            return Err(SecsError::UnexpectedEof { wanted, had: data.len() });
        }
        let needed = 4 + total;
        let stype = data[9];
        if stype == 0 && data[8] != 0 {
            return Err(SecsError::UnsupportedPType(data[8]));
        }
        let ghost h = data@.subrange(4, 14);
        let system_bytes = be4_at(data, 10);
        assert(h.subrange(6, 10) =~= data@.subrange(10, 14));
        let body_bytes = vstd::slice::slice_subrange(data, 14, needed);
        let message = match SType::from_u8(stype) {
            Some(SType::Data) => {
                let w_bit = data[6] >= 128;
                let stream = data[6] % 128;
                let function = data[7] % 128;
                let body = if body_bytes.len() == 0 {
                    None
                } else {
                    let (item, used) = SecsItem::from_bytes(body_bytes)?;
                    Some(item)
                };
                let session_id = be2_at(data, 4);
                assert(h.subrange(0, 2) =~= data@.subrange(4, 6));
                HsmsMessage::Data { session_id, stream, function, w_bit, system_bytes, body }
            },
            Some(SType::SelectReq) => HsmsMessage::SelectReq { system_bytes },
            Some(SType::SelectRsp) => HsmsMessage::SelectRsp {
                system_bytes,
                status: if data[13] == 0 {
                    SelectStatus::Selected
                } else if data[13] == 1 {
                    SelectStatus::AlreadySelected
                } else {
                    SelectStatus::NotSelected
                },
            },
            Some(SType::LinktestReq) => HsmsMessage::LinktestReq { system_bytes },
            Some(SType::LinktestRsp) => HsmsMessage::LinktestRsp { system_bytes },
            Some(SType::SeparateReq) => HsmsMessage::Separate { system_bytes },
            Some(SType::RejectReq) => HsmsMessage::Reject {
                system_bytes,
                reason: data[13],
                rejected_s: data[11],
                rejected_f: data[12],
            },
            _ => HsmsMessage::Reject { system_bytes, reason: stype, rejected_s: data[11], rejected_f: data[12] },
        };
        Ok((message, needed))
    }
}

/// Write a control header (session 0, PType 0) with the given SType.
fn push_control(stype: u8, sb: u32, out: &mut Vec<u8>)
    ensures
        final(out)@ == old(out)@ + control_header(stype, sb),
{
    out.push(0);
    out.push(0);
    out.push(0);
    out.push(0);
    out.push(0);
    out.push(stype);
    push_be4(sb, out);
    assert(out@ =~= old(out)@ + control_header(stype, sb));
}


/// A message that decodes to itself: its body encodable and its frame
/// length within 32 bits, stream and function within 7 bits, and, where a
/// header byte overlaps the system bytes (a Select.rsp's status, a Reject's
/// stream/function/reason), those system bytes already hold that byte.
pub open spec fn wire_exact(m: MsgVal) -> bool {
    &&& msg_ok(m)
    &&& 10 + body_of(m).len() < 0x1_0000_0000
    &&& match m {
        MsgVal::Data { stream, function, .. } => stream < 128 && function < 128,
        MsgVal::SelectRsp { system_bytes, status } => system_bytes % 256 == status.value(),
        MsgVal::Reject { system_bytes, reason, rejected_s, rejected_f } =>
            system_bytes % 0x100_0000 == rejected_s as int * 0x1_0000 + rejected_f as int * 256 + reason as int,
        _ => true,
    }
}

/// The frame around a message's header and body decodes to what the header
/// and body decode to.
proof fn lemma_frame(m: MsgVal, r: Seq<u8>)
    requires
        wire_exact(m),
    ensures
        sp_msg(msg_bytes(m) + r) == match msg_from(header_of(m), body_of(m)) {
            Ok(x) => Ok::<(MsgVal, nat), SecsError>((x, msg_bytes(m).len())),
            Err(e) => Err(e),
        },
{
    let b = body_of(m);
    let total = ((10 + b.len()) % 0x1_0000_0000) as u32;
    let h = header_of(m);
    let d = msg_bytes(m) + r;
    assert(total == 10 + b.len());
    lemma_be4_roundtrip(total);
    assert(d.take(4) =~= be4(total));
    assert(d.subrange(4, 14) =~= h);
    assert(d.subrange(14, 4 + total as int) =~= b);
    assert(h[5] == 0 ==> h[4] == 0);
}

/// A message's header and body decode to the message.
#[verifier::spinoff_prover]
proof fn lemma_msg_from(m: MsgVal)
    requires
        wire_exact(m),
    ensures
        msg_from(header_of(m), body_of(m)) == Ok::<MsgVal, SecsError>(m),
{
    let h = header_of(m);
    let sb = HsmsMessage::sb(m);
    lemma_be4_roundtrip(sb);
    match m {
        MsgVal::Data { session_id, stream, function, w_bit, system_bytes, body } => {
            assert(h.subrange(6, 10) =~= be4(system_bytes));
            assert(h.subrange(0, 2) =~= be2(session_id));
            assert((session_id / 256) as int * 256 + (session_id % 256) as int == session_id as int) by (nonlinear_arith);
            match body {
                Some(v) => {
                    lemma_item_roundtrip(v, Seq::empty());
                    assert(val_bytes(v) + Seq::<u8>::empty() =~= val_bytes(v));
                    assert(val_bytes(v).len() > 0);
                },
                None => {},
            }
        },
        MsgVal::SelectRsp { system_bytes, status } => {
            let q = h.subrange(6, 10);
            assert(q =~= be4(system_bytes).update(3, status.value()));
            assert(from_be4(q) == system_bytes);
            assert(SelectStatus::of_byte(status.value()) == status);
        },
        MsgVal::Reject { system_bytes, reason, rejected_s, rejected_f } => {
            let q = h.subrange(6, 10);
            assert(q =~= seq![(system_bytes / 0x100_0000) as u8, rejected_s, rejected_f, reason]);
            assert((system_bytes / 0x100_0000) as int * 0x100_0000 + system_bytes % 0x100_0000 == system_bytes as int)
                by (nonlinear_arith);
            assert(from_be4(q) == system_bytes);
        },
        _ => {
            assert(h.subrange(6, 10) =~= be4(sb));
        },
    }
}

/// Decoding the bytes of a message gives the message back and consumes
/// exactly its frame, whatever follows it.
pub proof fn lemma_msg_roundtrip(m: MsgVal, r: Seq<u8>)
    requires
        wire_exact(m),
    ensures
        sp_msg(msg_bytes(m) + r) == Ok::<(MsgVal, nat), SecsError>((m, msg_bytes(m).len())),
{
    lemma_frame(m, r);
    lemma_msg_from(m);
}


/// The SEMI E37 SType on the wire: byte 9 of every frame (header byte 5,
/// after the 4-byte length) is the message's SType from SEMI E37 Table 1
/// (data 0, Select.req 1, Select.rsp 2, Linktest.req 5, Linktest.rsp 6,
/// Reject.req 7, Separate.req 9), and byte 8 (the PType) is 0 (SECS-II).
pub proof fn lemma_e37_stype(m: MsgVal)
    ensures
        msg_bytes(m)[9] == match m {
            MsgVal::Data { .. } => 0u8,
            MsgVal::SelectReq { .. } => 1u8,
            MsgVal::SelectRsp { .. } => 2u8,
            MsgVal::LinktestReq { .. } => 5u8,
            MsgVal::LinktestRsp { .. } => 6u8,
            MsgVal::Reject { .. } => 7u8,
            MsgVal::Separate { .. } => 9u8,
        },
        msg_bytes(m)[8] == 0,
{
    let b = body_of(m);
    assert(msg_bytes(m) == be4(((10 + b.len()) % 0x1_0000_0000) as u32) + header_of(m) + b);
    assert(msg_bytes(m)[9] == header_of(m)[5]);
    assert(msg_bytes(m)[8] == header_of(m)[4]);
}

/// The SEMI E37 frame layout: a 4-byte big-endian length counting the
/// 10-byte header and the body, then the header (session ID big-endian, the
/// W-bit and 7-bit stream, the 7-bit function, PType, SType, system bytes
/// big-endian; a control message has zero session, stream and function),
/// then the body. A Select.rsp carries its status (Selected 0, already
/// selected 1, not selected 2) and a Reject.req its rejected stream,
/// function and reason in the last three header bytes.
pub proof fn lemma_e37_frame_layout(m: MsgVal)
    requires
        10 + body_of(m).len() < 0x1_0000_0000,
    ensures
        ({
            let d = msg_bytes(m);
            let n = 10 + body_of(m).len();
            let sb = HsmsMessage::sb(m);
            let sbb = seq![(sb / 0x100_0000) as u8, ((sb / 0x1_0000) % 256) as u8, ((sb / 256) % 256) as u8, (sb % 256) as u8];
            &&& d.len() == 4 + n
            &&& d.subrange(0, 4) == seq![(n / 0x100_0000) as u8, ((n / 0x1_0000) % 256) as u8, ((n / 256) % 256) as u8, (n % 256) as u8]
            &&& d.subrange(14, d.len() as int) == body_of(m)
            &&& match m {
                MsgVal::Data { session_id, stream, function, w_bit, .. } => {
                    &&& d.subrange(4, 8) == seq![(session_id / 256) as u8, (session_id % 256) as u8,
                        (stream % 128 + if w_bit { 128int } else { 0int }) as u8, function % 128]
                    &&& d.subrange(10, 14) == sbb
                },
                MsgVal::SelectRsp { status, .. } => {
                    &&& d.subrange(4, 8) == seq![0u8, 0u8, 0u8, 0u8]
                    &&& d.subrange(10, 13) == sbb.subrange(0, 3)
                    &&& d[13] == match status {
                        SelectStatus::Selected => 0u8,
                        SelectStatus::AlreadySelected => 1u8,
                        SelectStatus::NotSelected => 2u8,
                    }
                },
                MsgVal::Reject { reason, rejected_s, rejected_f, .. } => {
                    &&& d.subrange(4, 8) == seq![0u8, 0u8, 0u8, 0u8]
                    &&& d.subrange(10, 14) == seq![sbb[0], rejected_s, rejected_f, reason]
                },
                _ => {
                    &&& d.subrange(4, 8) == seq![0u8, 0u8, 0u8, 0u8]
                    &&& d.subrange(10, 14) == sbb
                },
            }
        }),
{
    let b = body_of(m);
    let n = 10 + b.len();
    let h = header_of(m);
    let d = msg_bytes(m);
    assert(((10 + b.len()) % 0x1_0000_0000) as u32 == n);
    assert(d == be4(n as u32) + h + b);
    assert(d.subrange(0, 4) =~= be4(n as u32));
    assert(d.subrange(4, 8) =~= h.subrange(0, 4));
    assert(d.subrange(10, 14) =~= h.subrange(6, 10));
    assert(d.subrange(14, d.len() as int) =~= b);
    match m {
        MsgVal::SelectRsp { .. } => {
            assert(d.subrange(10, 13) =~= h.subrange(6, 9));
        },
        _ => {},
    }
}

/// The Reject.req reason codes of SEMI E37 Table 2.
pub proof fn lemma_e37_reject_reasons()
    ensures
        RejectReason::NotSelected.value() == 1,
        RejectReason::InsufficientResources.value() == 2,
        RejectReason::UnrecognizedParameter.value() == 3,
        RejectReason::IllegalStatus.value() == 4,
        RejectReason::TimerExpired.value() == 5,
        RejectReason::Congestion.value() == 6,
{
}

/// A control frame of SEMI E37 decodes by its SType: length 10, session,
/// stream, function and PType zero, then SType 1, 5, 6 or 9 and the system
/// bytes give a Select.req, Linktest.req, Linktest.rsp or Separate.req with
/// those system bytes, taking the frame's 14 bytes.
pub proof fn lemma_e37_control_decode(sb: u32, rest: Seq<u8>)
    ensures
        sp_msg(seq![0u8, 0u8, 0u8, 10u8, 0u8, 0u8, 0u8, 0u8, 0u8, 1u8] + be4(sb) + rest)
            == Ok::<(MsgVal, nat), SecsError>((MsgVal::SelectReq { system_bytes: sb }, 14)),
        sp_msg(seq![0u8, 0u8, 0u8, 10u8, 0u8, 0u8, 0u8, 0u8, 0u8, 5u8] + be4(sb) + rest)
            == Ok::<(MsgVal, nat), SecsError>((MsgVal::LinktestReq { system_bytes: sb }, 14)),
        sp_msg(seq![0u8, 0u8, 0u8, 10u8, 0u8, 0u8, 0u8, 0u8, 0u8, 6u8] + be4(sb) + rest)
            == Ok::<(MsgVal, nat), SecsError>((MsgVal::LinktestRsp { system_bytes: sb }, 14)),
        sp_msg(seq![0u8, 0u8, 0u8, 10u8, 0u8, 0u8, 0u8, 0u8, 0u8, 9u8] + be4(sb) + rest)
            == Ok::<(MsgVal, nat), SecsError>((MsgVal::Separate { system_bytes: sb }, 14)),
{
    lemma_be4_roundtrip(sb);
    lemma_control_decode(1, sb, rest);
    lemma_control_decode(5, sb, rest);
    lemma_control_decode(6, sb, rest);
    lemma_control_decode(9, sb, rest);
}

/// How a 14-byte control frame with the given SType byte decodes.
proof fn lemma_control_decode(stype: u8, sb: u32, rest: Seq<u8>)
    requires
        stype != 0,
    ensures
        sp_msg(seq![0u8, 0u8, 0u8, 10u8, 0u8, 0u8, 0u8, 0u8, 0u8, stype] + be4(sb) + rest)
            == match msg_from(seq![0u8, 0u8, 0u8, 0u8, 0u8, stype] + be4(sb), Seq::empty()) {
                Ok(x) => Ok::<(MsgVal, nat), SecsError>((x, 14)),
                Err(e) => Err(e),
            },
{
    let d = seq![0u8, 0u8, 0u8, 10u8, 0u8, 0u8, 0u8, 0u8, 0u8, stype] + be4(sb) + rest;
    assert(d.take(4) =~= seq![0u8, 0u8, 0u8, 10u8]);
    assert(from_be4(seq![0u8, 0u8, 0u8, 10u8]) == 10);
    assert(d.subrange(4, 14) =~= seq![0u8, 0u8, 0u8, 0u8, 0u8, stype] + be4(sb));
    assert(d.subrange(14, 14) =~= Seq::<u8>::empty());
    let h = seq![0u8, 0u8, 0u8, 0u8, 0u8, stype] + be4(sb);
    assert(h.subrange(6, 10) =~= be4(sb));
}

// ----- session state machine ------------------------------------------------------

/// What a handshake does with a message that arrived.
#[derive(Debug)]
pub enum SessionStep {
    /// Send this reply and keep waiting.
    Reply(HsmsMessage),
    /// The exchange is complete; send this reply first, if any.
    Done(Option<HsmsMessage>),
    /// The exchange failed.
    Fail(SecsError),
    /// A message the exchange has no place for; the caller reports it.
    Unexpected(HsmsMessage),
}

/// What a transaction does with a message that arrived while it awaits its
/// reply.
#[derive(Debug)]
pub enum ReplyStep {
    /// The reply arrived: its function and body.
    Reply(u8, Option<SecsItem>),
    /// Send this control answer and keep waiting.
    Send(HsmsMessage),
    /// The transaction failed.
    Fail(SecsError),
    /// A message that is not the reply; the caller reports it.
    Unexpected(HsmsMessage),
}

/// What serving does with a message that arrived.
#[derive(Debug)]
pub enum ServeStep {
    /// A data primary to hand to the caller (who may answer it).
    Primary { session_id: u16, stream: u8, function: u8, w_bit: bool, system_bytes: u32, body: Option<SecsItem> },
    /// Send this control answer and keep waiting.
    Send(HsmsMessage),
    /// Serving failed.
    Fail(SecsError),
}

/// The text of the error raised when the peer separates.
pub open spec fn separate_text() -> Seq<char> {
    "peer sent Separate; session deselected"@
}

/// The text of the error raised when Select is answered with `status`.
pub open spec fn select_rejected_text(status: SelectStatus) -> Seq<char> {
    match status {
        SelectStatus::Selected => "select rejected, status Selected"@,
        SelectStatus::AlreadySelected => "select rejected, status AlreadySelected"@,
        SelectStatus::NotSelected => "select rejected, status NotSelected"@,
    }
}

/// The state of a single-session HSMS connection: whether it is selected,
/// its session ID, and the system bytes the next primary will carry. The
/// byte stream itself belongs to the caller, who sends the messages the
/// session hands out and feeds back the messages that arrive.
pub struct HsmsSession {
    state: HsmsState,
    session_id: u16,
    next_system_bytes: u32,
}

impl HsmsSession {
    /// The connection state.
    pub closed spec fn state_of(&self) -> HsmsState {
        self.state
    }

    /// The session ID used on data messages.
    pub closed spec fn id(&self) -> u16 {
        self.session_id
    }

    /// The system bytes the next primary will carry.
    pub closed spec fn next_sb(&self) -> u32 {
        self.next_system_bytes
    }

    /// A session over an established connection. It starts in
    /// `ConnectedNotSelected`; select before data flows.
    pub fn new(session_id: u16) -> (s: Self)
        ensures
            s.state_of() == HsmsState::ConnectedNotSelected,
            s.id() == session_id,
            s.next_sb() == 1,
    {
        HsmsSession { state: HsmsState::ConnectedNotSelected, session_id, next_system_bytes: 1 }
    }

    /// The connection state.
    pub fn state(&self) -> (st: HsmsState)
        ensures
            st == self.state_of(),
    {
        self.state
    }

    /// The session ID.
    pub fn session_id(&self) -> (id: u16)
        ensures
            id == self.id(),
    {
        self.session_id
    }

    /// Take the next system bytes (they count up, wrapping).
    fn next_system_bytes(&mut self) -> (sb: u32)
        ensures
            sb == old(self).next_sb(),
            final(self).next_sb() == old(self).next_sb().wrapping_add(1),
            final(self).state_of() == old(self).state_of(),
            final(self).id() == old(self).id(),
    {
        let sb = self.next_system_bytes;
        self.next_system_bytes = self.next_system_bytes.wrapping_add(1);
        sb
    }

    /// Start the Select transaction (SEMI E37.1 Section 5.3) as the selecting
    /// side: the Select.req to send.
    pub fn select_request(&mut self) -> (m: HsmsMessage)
        ensures
            m == (HsmsMessage::SelectReq { system_bytes: old(self).next_sb() }),
            final(self).next_sb() == old(self).next_sb().wrapping_add(1),
            final(self).state_of() == old(self).state_of(),
            final(self).id() == old(self).id(),
    {
        let sb = self.next_system_bytes();
        HsmsMessage::SelectReq { system_bytes: sb }
    }

    /// A message arrived while awaiting Select.rsp. A Selected status selects
    /// the session; another status fails; a Linktest.req is answered;
    /// anything else is unexpected.
    pub fn on_select_reply(&mut self, msg: HsmsMessage) -> (step: SessionStep)
        ensures
            final(self).id() == old(self).id(),
            final(self).next_sb() == old(self).next_sb(),
            match msg {
                HsmsMessage::SelectRsp { status, .. } => if status == SelectStatus::Selected {
                    step matches SessionStep::Done(None) && final(self).state_of() == HsmsState::Selected
                } else {
                    step matches SessionStep::Fail(SecsError::Gem(t)) && t@ == select_rejected_text(status)
                        && final(self).state_of() == old(self).state_of()
                },
                HsmsMessage::LinktestReq { system_bytes } =>
                    step == SessionStep::Reply(HsmsMessage::LinktestRsp { system_bytes })
                        && final(self).state_of() == old(self).state_of(),
                _ => step == SessionStep::Unexpected(msg) && final(self).state_of() == old(self).state_of(),
            },
    {
        match msg {
            HsmsMessage::SelectRsp { status, .. } => {
                match status {
                    SelectStatus::Selected => {
                        self.state = HsmsState::Selected;
                        SessionStep::Done(None)
                    },
                    SelectStatus::AlreadySelected => SessionStep::Fail(
                        SecsError::Gem("select rejected, status AlreadySelected".to_string()),
                    ),
                    SelectStatus::NotSelected => SessionStep::Fail(
                        SecsError::Gem("select rejected, status NotSelected".to_string()),
                    ),
                }
            },
            HsmsMessage::LinktestReq { system_bytes } => SessionStep::Reply(HsmsMessage::LinktestRsp { system_bytes }),
            other => SessionStep::Unexpected(other),
        }
    }

    /// Equipment side of the Select transaction: a message arrived while
    /// awaiting Select.req. A Select.req selects the session and is answered
    /// Selected; a Linktest.req is answered; anything else is unexpected.
    pub fn on_select_request(&mut self, msg: HsmsMessage) -> (step: SessionStep)
        ensures
            final(self).id() == old(self).id(),
            final(self).next_sb() == old(self).next_sb(),
            match msg {
                HsmsMessage::SelectReq { system_bytes } =>
                    step == SessionStep::Done(Some(HsmsMessage::SelectRsp { system_bytes, status: SelectStatus::Selected }))
                        && final(self).state_of() == HsmsState::Selected,
                HsmsMessage::LinktestReq { system_bytes } =>
                    step == SessionStep::Reply(HsmsMessage::LinktestRsp { system_bytes })
                        && final(self).state_of() == old(self).state_of(),
                _ => step == SessionStep::Unexpected(msg) && final(self).state_of() == old(self).state_of(),
            },
    {
        match msg {
            HsmsMessage::SelectReq { system_bytes } => {
                self.state = HsmsState::Selected;
                SessionStep::Done(Some(HsmsMessage::SelectRsp { system_bytes, status: SelectStatus::Selected }))
            },
            HsmsMessage::LinktestReq { system_bytes } => SessionStep::Reply(HsmsMessage::LinktestRsp { system_bytes }),
            other => SessionStep::Unexpected(other),
        }
    }

    /// Start a transaction: the SECS-II primary to send (W-bit set, fresh
    /// system bytes). Only a selected session may send data.
    pub fn begin_transact(&mut self, stream: u8, function: u8, body: Option<SecsItem>) -> (res: Result<HsmsMessage, SecsError>)
        ensures
            final(self).id() == old(self).id(),
            final(self).state_of() == old(self).state_of(),
            old(self).state_of() != HsmsState::Selected ==> res == Err::<HsmsMessage, SecsError>(
                SecsError::NotSelected { state: old(self).state_of() }) && final(self).next_sb() == old(self).next_sb(),
            old(self).state_of() == HsmsState::Selected ==> res == Ok::<HsmsMessage, SecsError>(HsmsMessage::Data {
                session_id: old(self).id(),
                stream,
                function,
                w_bit: true,
                system_bytes: old(self).next_sb(),
                body,
            }) && final(self).next_sb() == old(self).next_sb().wrapping_add(1),
    {
        if self.state != HsmsState::Selected {
            return Err(SecsError::NotSelected { state: self.state });
        }
        let sb = self.next_system_bytes();
        Ok(HsmsMessage::data(self.session_id, stream, function, true, sb, body))
    }

    /// A message arrived while a transaction awaits the reply carrying
    /// `system_bytes`. The matching data message is the reply; Linktest.req
    /// and Select.req are answered (the latter AlreadySelected); Separate
    /// deselects the session and fails; anything else is unexpected.
    pub fn on_transact_reply(&mut self, system_bytes: u32, msg: HsmsMessage) -> (step: ReplyStep)
        ensures
            final(self).id() == old(self).id(),
            final(self).next_sb() == old(self).next_sb(),
            match msg {
                HsmsMessage::Data { system_bytes: sb, function, body, .. } => if sb == system_bytes {
                    step == ReplyStep::Reply(function, body) && final(self).state_of() == old(self).state_of()
                } else {
                    step == ReplyStep::Unexpected(msg) && final(self).state_of() == old(self).state_of()
                },
                HsmsMessage::LinktestReq { system_bytes: sb } =>
                    step == ReplyStep::Send(HsmsMessage::LinktestRsp { system_bytes: sb })
                        && final(self).state_of() == old(self).state_of(),
                HsmsMessage::SelectReq { system_bytes: sb } =>
                    step == ReplyStep::Send(HsmsMessage::SelectRsp { system_bytes: sb, status: SelectStatus::AlreadySelected })
                        && final(self).state_of() == old(self).state_of(),
                HsmsMessage::Separate { .. } =>
                    (step matches ReplyStep::Fail(SecsError::Gem(t)) && t@ == separate_text())
                        && final(self).state_of() == HsmsState::ConnectedNotSelected,
                _ => step == ReplyStep::Unexpected(msg) && final(self).state_of() == old(self).state_of(),
            },
    {
        match msg {
            HsmsMessage::Data { system_bytes: sb, function, body, session_id, stream, w_bit } => {
                if sb == system_bytes {
                    ReplyStep::Reply(function, body)
                } else {
                    ReplyStep::Unexpected(HsmsMessage::Data { system_bytes: sb, function, body, session_id, stream, w_bit })
                }
            },
            HsmsMessage::LinktestReq { system_bytes: sb } => ReplyStep::Send(HsmsMessage::LinktestRsp { system_bytes: sb }),
            HsmsMessage::SelectReq { system_bytes: sb } =>
                ReplyStep::Send(HsmsMessage::SelectRsp { system_bytes: sb, status: SelectStatus::AlreadySelected }),
            HsmsMessage::Separate { .. } => {
                self.state = HsmsState::ConnectedNotSelected;
                ReplyStep::Fail(SecsError::Gem("peer sent Separate; session deselected".to_string()))
            },
            other => ReplyStep::Unexpected(other),
        }
    }

    /// Check that the session may serve data: it must be selected.
    pub fn begin_serve(&self) -> (res: Result<(), SecsError>)
        ensures
            self.state_of() == HsmsState::Selected ==> res is Ok,
            self.state_of() != HsmsState::Selected ==> res == Err::<(), SecsError>(SecsError::NotSelected { state: self.state_of() }),
    {
        if self.state != HsmsState::Selected {
            return Err(SecsError::NotSelected { state: self.state });
        }
        Ok(())
    }

    /// A message arrived while serving. A data message is a primary for the
    /// caller; Linktest.req and Select.req are answered (the latter
    /// AlreadySelected); Separate deselects the session and fails; anything
    /// else is rejected (IllegalStatus) and serving goes on.
    pub fn on_serve(&mut self, msg: HsmsMessage) -> (step: ServeStep)
        ensures
            final(self).id() == old(self).id(),
            final(self).next_sb() == old(self).next_sb(),
            match msg {
                HsmsMessage::Data { session_id, stream, function, w_bit, system_bytes, body } =>
                    step == (ServeStep::Primary { session_id, stream, function, w_bit, system_bytes, body })
                        && final(self).state_of() == old(self).state_of(),
                HsmsMessage::LinktestReq { system_bytes } =>
                    step == ServeStep::Send(HsmsMessage::LinktestRsp { system_bytes })
                        && final(self).state_of() == old(self).state_of(),
                HsmsMessage::SelectReq { system_bytes } =>
                    step == ServeStep::Send(HsmsMessage::SelectRsp { system_bytes, status: SelectStatus::AlreadySelected })
                        && final(self).state_of() == old(self).state_of(),
                HsmsMessage::Separate { .. } =>
                    (step matches ServeStep::Fail(SecsError::Gem(t)) && t@ == separate_text())
                        && final(self).state_of() == HsmsState::ConnectedNotSelected,
                _ => step == ServeStep::Send(HsmsMessage::Reject {
                    system_bytes: HsmsMessage::sb(msg@),
                    reason: RejectReason::IllegalStatus.value(),
                    rejected_s: 0,
                    rejected_f: 0,
                }) && final(self).state_of() == old(self).state_of(),
            },
    {
        match msg {
            HsmsMessage::Data { session_id, stream, function, w_bit, system_bytes, body } =>
                ServeStep::Primary { session_id, stream, function, w_bit, system_bytes, body },
            HsmsMessage::LinktestReq { system_bytes } => ServeStep::Send(HsmsMessage::LinktestRsp { system_bytes }),
            HsmsMessage::SelectReq { system_bytes } =>
                ServeStep::Send(HsmsMessage::SelectRsp { system_bytes, status: SelectStatus::AlreadySelected }),
            HsmsMessage::Separate { .. } => {
                self.state = HsmsState::ConnectedNotSelected;
                ServeStep::Fail(SecsError::Gem("peer sent Separate; session deselected".to_string()))
            },
            other => {
                let sb = other.system_bytes();
                ServeStep::Send(HsmsMessage::Reject {
                    system_bytes: sb,
                    reason: RejectReason::IllegalStatus.code(),
                    rejected_s: 0,
                    rejected_f: 0,
                })
            },
        }
    }

    /// The secondary answering a served primary: same session, stream and
    /// system bytes, the next function, W-bit clear.
    pub fn serve_reply(session_id: u16, stream: u8, function: u8, system_bytes: u32, body: SecsItem) -> (m: HsmsMessage)
        requires
            function < 255,
        ensures
            m == (HsmsMessage::Data {
                session_id,
                stream,
                function: (function + 1) as u8,
                w_bit: false,
                system_bytes,
                body: Some(body),
            }),
    {
        HsmsMessage::data(session_id, stream, function + 1, false, system_bytes, Some(body))
    }
}

} // verus!
