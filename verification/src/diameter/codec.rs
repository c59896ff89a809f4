//! Frame decoding and encoding, with their specifications and the
//! round-trip law.
use super::{bytes_result, message_result, Avp, AvpModel, DiameterError, Message, MessageModel};
use crate::wire::{
    be24_at, be32_at, lemma_round4, lemma_u24_bytes_roundtrip, lemma_u32_bytes_roundtrip, push_u24,
    push_u32, read_u24, read_u32, round4, u24_bytes, u32_bytes,
};
use vstd::prelude::*;
use vstd::slice::{slice_subrange, slice_to_vec};

verus! {

/// Largest frame, in bytes, that is read or written.
pub const MAX_FRAME: usize = 65536;

/// Length of the fixed Diameter header.
pub const HEADER_LEN: usize = 20;

/// Number of header bytes an AVP carries before its data.
pub open spec fn avp_header_len(a: AvpModel) -> int {
    if a.vendor is Some {
        12
    } else {
        8
    }
}

/// The AVP length field: header plus data, without padding.
pub open spec fn avp_length(a: AvpModel) -> int {
    a.data.len() + avp_header_len(a)
}

/// `n` zero bytes.
pub open spec fn zeros(n: int) -> Seq<u8> {
    Seq::new(n as nat, |i: int| 0u8)
}

/// The optional Vendor-Id field.
pub open spec fn vendor_bytes(v: Option<u32>) -> Seq<u8> {
    match v {
        Some(id) => u32_bytes(id),
        None => Seq::empty(),
    }
}

/// The wire form of one AVP, padded to a multiple of four bytes.
pub open spec fn avp_wire(a: AvpModel) -> Seq<u8> {
    u32_bytes(a.code) + seq![a.flags] + u24_bytes(avp_length(a) as nat) + vendor_bytes(a.vendor)
        + a.data + zeros(round4(avp_length(a)) - avp_length(a))
}

/// Whether an AVP's flags agree with the presence of its Vendor-Id.
pub open spec fn avp_flags_ok(a: AvpModel) -> bool {
    a.flags & 0x1f == 0 && (a.flags & 0x80 != 0) == (a.vendor is Some)
}

/// Encoding of the first `n` AVPs, checked in order against the frame limit.
pub open spec fn encode_avps(avps: Seq<AvpModel>, n: int) -> Result<Seq<u8>, DiameterError>
    decreases n,
{
    if n <= 0 {
        Ok(Seq::empty())
    } else {
        match encode_avps(avps, n - 1) {
            Err(e) => Err(e),
            Ok(body) => {
                let a = avps[n - 1];
                if !avp_flags_ok(a) {
                    Err(DiameterError::InvalidAvpFlags)
                } else if avp_length(a) > usize::MAX {
                    Err(DiameterError::AvpTooLarge)
                } else if !(avp_length(a) <= MAX_FRAME && HEADER_LEN + body.len() + round4(
                    avp_length(a),
                ) <= MAX_FRAME) {
                    Err(DiameterError::FrameTooLarge)
                } else {
                    Ok(body + avp_wire(a))
                }
            },
        }
    }
}

/// The header of an encoded frame whose total length is `len`.
pub open spec fn header_wire(m: MessageModel, len: nat) -> Seq<u8> {
    seq![1u8] + u24_bytes(len) + seq![m.flags] + u24_bytes(m.command as nat) + u32_bytes(
        m.application,
    ) + u32_bytes(m.hop) + u32_bytes(m.end)
}

/// What [`Message::encode`] produces for a message, or the first check it fails.
pub open spec fn spec_encode(m: MessageModel) -> Result<Seq<u8>, DiameterError> {
    if !(m.command <= 0xffffff && m.flags & 0x0f == 0) {
        Err(DiameterError::InvalidCommand)
    } else if m.avps.len() > 256 {
        Err(DiameterError::TooManyAvps)
    } else {
        match encode_avps(m.avps, m.avps.len() as int) {
            Err(e) => Err(e),
            Ok(body) => Ok(header_wire(m, (HEADER_LEN + body.len()) as nat) + body),
        }
    }
}

/// The AVPs that follow `offset` in `b`, appended to those already read.
pub open spec fn parse_avps(b: Seq<u8>, offset: int, acc: Seq<AvpModel>) -> Result<
    Seq<AvpModel>,
    DiameterError,
>
    decreases b.len() - offset,
{
    if offset >= b.len() || offset < 0 {
        Ok(acc)
    } else if b.len() - offset < 8 {
        Err(DiameterError::TruncatedAvpHeader)
    } else {
        let flags = b[offset + 4];
        if flags & 0x1f != 0 {
            Err(DiameterError::ReservedAvpFlags)
        } else {
            let header: int = if flags & 0x80 != 0 {
                12
            } else {
                8
            };
            let length = be24_at(b, offset + 5);
            if !(length >= header && length <= b.len() - offset) {
                Err(DiameterError::InvalidAvpLength)
            } else if round4(length) > b.len() - offset {
                Err(DiameterError::TruncatedAvpPadding)
            } else if acc.len() >= 256 {
                Err(DiameterError::TooManyAvps)
            } else {
                let avp = AvpModel {
                    code: be32_at(b, offset),
                    flags,
                    vendor: if header == 12 {
                        Some(be32_at(b, offset + 8))
                    } else {
                        None
                    },
                    data: b.subrange(offset + header, offset + length),
                };
                parse_avps(b, offset + round4(length), acc.push(avp))
            }
        }
    }
}

/// What [`Message::decode`] reads from a frame, or the first check it fails.
pub open spec fn spec_decode(b: Seq<u8>) -> Result<MessageModel, DiameterError> {
    if !(HEADER_LEN <= b.len() <= MAX_FRAME) {
        Err(DiameterError::FrameSize)
    } else if !(b[0] == 1 && be24_at(b, 1) == b.len()) {
        Err(DiameterError::InvalidHeader)
    } else if b[4] & 0x0f != 0 {
        Err(DiameterError::ReservedCommandFlags)
    } else {
        match parse_avps(b, HEADER_LEN as int, Seq::empty()) {
            Err(e) => Err(e),
            Ok(avps) => Ok(
                MessageModel {
                    flags: b[4],
                    command: be24_at(b, 5) as u32,
                    application: be32_at(b, 8),
                    hop: be32_at(b, 12),
                    end: be32_at(b, 16),
                    avps,
                },
            ),
        }
    }
}

proof fn lemma_encode_avps_error_sticks(avps: Seq<AvpModel>, k: int, n: int)
    requires
        0 <= k <= n,
        encode_avps(avps, k) is Err,
    ensures
        encode_avps(avps, n) == encode_avps(avps, k),
    decreases n - k,
{
    if k < n {
        lemma_encode_avps_error_sticks(avps, k, n - 1);
    }
}

/// The body produced for the first `k` AVPs, when there is one.
pub open spec fn body_of(avps: Seq<AvpModel>, k: int) -> Seq<u8> {
    match encode_avps(avps, k) {
        Ok(b) => b,
        Err(_) => Seq::empty(),
    }
}

pub(crate) proof fn lemma_encode_avps_bounded(avps: Seq<AvpModel>, n: int)
    requires
        0 <= n,
        encode_avps(avps, n) is Ok,
    ensures
        HEADER_LEN + body_of(avps, n).len() <= MAX_FRAME,
    decreases n,
{
    if n > 0 {
        lemma_encode_avps_bounded(avps, n - 1);
        lemma_round4(avp_length(avps[n - 1]));
        lemma_avp_wire_len(avps[n - 1]);
    }
}

pub(crate) proof fn lemma_avp_wire_len(a: AvpModel)
    ensures
        avp_wire(a).len() == round4(avp_length(a)),
        avp_length(a) >= 8,
{
    lemma_round4(avp_length(a));
}

proof fn lemma_encode_avps_prefix(avps: Seq<AvpModel>, n: int, k: int)
    requires
        0 <= k < n,
        encode_avps(avps, n) is Ok,
    ensures
        encode_avps(avps, k) is Ok,
        encode_avps(avps, k + 1) is Ok,
        body_of(avps, k + 1) == body_of(avps, k) + avp_wire(avps[k]),
        body_of(avps, k + 1).len() <= body_of(avps, n).len(),
        body_of(avps, n).subrange(0, body_of(avps, k + 1).len() as int) == body_of(avps, k + 1),
        avp_flags_ok(avps[k]),
        avp_length(avps[k]) <= MAX_FRAME,
    decreases n - k,
{
    if k + 1 == n {
        assert(body_of(avps, n).subrange(0, body_of(avps, n).len() as int) =~= body_of(avps, n));
    } else {
        lemma_encode_avps_prefix(avps, n - 1, k);
        let b1 = body_of(avps, n - 1);
        let bn = body_of(avps, n);
        assert(bn == b1 + avp_wire(avps[n - 1]));
        assert(bn.subrange(0, body_of(avps, k + 1).len() as int) =~= b1.subrange(
            0,
            body_of(avps, k + 1).len() as int,
        ));
    }
}

proof fn lemma_parse_one(b: Seq<u8>, off: int, a: AvpModel)
    requires
        0 <= off,
        off + avp_wire(a).len() <= b.len(),
        b.subrange(off, off + avp_wire(a).len()) == avp_wire(a),
        avp_flags_ok(a),
        avp_length(a) <= MAX_FRAME,
    ensures
        b.len() - off >= 8,
        b[off + 4] == a.flags,
        b[off + 4] & 0x1f == 0,
        (b[off + 4] & 0x80 != 0) == (a.vendor is Some),
        be24_at(b, off + 5) == avp_length(a),
        be32_at(b, off) == a.code,
        a.vendor is Some ==> be32_at(b, off + 8) == a.vendor->0,
        b.subrange(off + avp_header_len(a), off + avp_length(a)) == a.data,
        round4(avp_length(a)) == avp_wire(a).len(),
{
    let w = avp_wire(a);
    let len = avp_length(a);
    lemma_avp_wire_len(a);
    lemma_u32_bytes_roundtrip(a.code);
    lemma_u24_bytes_roundtrip(len as nat);
    assert forall|i: int| 0 <= i < w.len() implies b[off + i] == w[i] by {
        assert(b.subrange(off, off + w.len())[i] == w[i]);
    }
    let cb = u32_bytes(a.code);
    let lb = u24_bytes(len as nat);
    assert(w[0] == cb[0] && w[1] == cb[1] && w[2] == cb[2] && w[3] == cb[3]);
    assert(b[off] == cb[0] && b[off + 1] == cb[1] && b[off + 2] == cb[2] && b[off + 3] == cb[3]);
    assert(w[4] == a.flags);
    assert(b[off + 4] == a.flags);
    assert(w[5] == lb[0] && w[6] == lb[1] && w[7] == lb[2]);
    assert(b[off + 5] == lb[0] && b[off + 6] == lb[1] && b[off + 7] == lb[2]);
    let h = avp_header_len(a);
    if a.vendor is Some {
        let vb = u32_bytes(a.vendor->0);
        lemma_u32_bytes_roundtrip(a.vendor->0);
        assert(w[8] == vb[0] && w[9] == vb[1] && w[10] == vb[2] && w[11] == vb[3]);
        assert(b[off + 8] == vb[0] && b[off + 9] == vb[1] && b[off + 10] == vb[2] && b[off + 11]
            == vb[3]);
    }
    assert forall|i: int| 0 <= i < a.data.len() implies #[trigger] b.subrange(
        off + h,
        off + len,
    )[i] == a.data[i] by {
        assert(w[h + i] == a.data[i]);
        assert(b[off + h + i] == w[h + i]);
    }
    assert(b.subrange(off + h, off + len) =~= a.data);
}

#[verifier::rlimit(50)]
#[verifier::spinoff_prover]
proof fn lemma_parse_encoded(m: MessageModel, b: Seq<u8>, k: int)
    requires
        spec_encode(m) == Ok::<Seq<u8>, DiameterError>(b),
        0 <= k <= m.avps.len(),
    ensures
        parse_avps(b, HEADER_LEN + body_of(m.avps, k).len(), m.avps.take(k)) == Ok::<
            Seq<AvpModel>,
            DiameterError,
        >(m.avps),
    decreases m.avps.len() - k,
{
    let n = m.avps.len() as int;
    let bn = body_of(m.avps, n);
    let hw = header_wire(m, (HEADER_LEN + bn.len()) as nat);
    assert(b == hw + bn);
    assert(hw.len() == 20);
    if k == n {
        assert(m.avps.take(k) =~= m.avps);
    } else {
        lemma_encode_avps_prefix(m.avps, n, k);
        let bk = body_of(m.avps, k);
        let a = m.avps[k];
        let off = HEADER_LEN + bk.len();
        let w = avp_wire(a);
        lemma_avp_wire_len(a);
        assert(b.subrange(off, off + w.len()) =~= w) by {
            let bk1 = body_of(m.avps, k + 1);
            assert(bn.subrange(0, bk1.len() as int) == bk + w);
            assert forall|i: int| 0 <= i < w.len() implies b.subrange(off, off + w.len())[i]
                == w[i] by {
                assert(b[off + i] == bn[bk.len() + i]);
                assert(bn[bk.len() + i] == bn.subrange(0, bk1.len() as int)[bk.len() + i]);
            }
        }
        lemma_parse_one(b, off, a);
        assert(m.avps.take(k).push(a) =~= m.avps.take(k + 1));
        lemma_parse_encoded(m, b, k + 1);
    }
}

/// Decoding an encoded message gives the message back.
pub proof fn lemma_decode_encode(m: MessageModel)
    requires
        spec_encode(m) is Ok,
    ensures
        spec_decode(spec_encode(m)->Ok_0) == Ok::<MessageModel, DiameterError>(m),
{
    let b = spec_encode(m)->Ok_0;
    let n = m.avps.len() as int;
    let bn = body_of(m.avps, n);
    lemma_encode_avps_bounded(m.avps, n);
    let total = HEADER_LEN + bn.len();
    let hw = header_wire(m, total as nat);
    assert(b == hw + bn);
    lemma_u24_bytes_roundtrip(total as nat);
    lemma_u24_bytes_roundtrip(m.command as nat);
    lemma_u32_bytes_roundtrip(m.application);
    lemma_u32_bytes_roundtrip(m.hop);
    lemma_u32_bytes_roundtrip(m.end);
    let lb = u24_bytes(total as nat);
    let cb = u24_bytes(m.command as nat);
    let ab = u32_bytes(m.application);
    let hb = u32_bytes(m.hop);
    let eb = u32_bytes(m.end);
    assert(b[0] == 1);
    assert(b[1] == lb[0] && b[2] == lb[1] && b[3] == lb[2]);
    assert(b[4] == m.flags);
    assert(b[5] == cb[0] && b[6] == cb[1] && b[7] == cb[2]);
    assert(b[8] == ab[0] && b[9] == ab[1] && b[10] == ab[2] && b[11] == ab[3]);
    assert(b[12] == hb[0] && b[13] == hb[1] && b[14] == hb[2] && b[15] == hb[3]);
    assert(b[16] == eb[0] && b[17] == eb[1] && b[18] == eb[2] && b[19] == eb[3]);
    lemma_parse_encoded(m, b, 0);
    assert(m.avps.take(0) =~= Seq::<AvpModel>::empty());
    assert(body_of(m.avps, 0) =~= Seq::<u8>::empty());
}

/// Appends the wire form of one AVP whose length field is `length`.
fn write_avp(out: &mut Vec<u8>, a: &Avp, length: usize)
    requires
        length == avp_length(a.deep_view()),
        length <= MAX_FRAME,
    ensures
        final(out)@ == old(out)@ + avp_wire(a.deep_view()),
{
    let ghost before = old(out)@;
    push_u32(out, a.code);
    out.push(a.flags);
    push_u24(out, length);
    match a.vendor {
        Some(v) => push_u32(out, v),
        None => {},
    }
    let dlen = a.data.len();
    let mut j: usize = 0;
    while j < dlen
        invariant
            j <= dlen,
            dlen == a.data@.len(),
            out@ == before + u32_bytes(a.code) + seq![a.flags] + u24_bytes(length as nat)
                + vendor_bytes(a.vendor) + a.data@.take(j as int),
        decreases dlen - j,
    {
        out.push(a.data[j]);
        assert(a.data@.take(j + 1) =~= a.data@.take(j as int).push(a.data@[j as int]));
        j = j + 1;
    }
    assert(a.data@.take(dlen as int) =~= a.data@);
    let ghost mid = out@;
    let pad_end = (length + 3) / 4 * 4;
    let mut p: usize = length;
    while p < pad_end
        invariant
            length <= p <= pad_end,
            out@ == mid + zeros(p - length),
        decreases pad_end - p,
    {
        out.push(0);
        assert(zeros(p + 1 - length) =~= zeros(p - length).push(0u8));
        p = p + 1;
    }
    assert(out@ =~= before + avp_wire(a.deep_view()));
}

impl Message {
    /// Reads one frame. Frames outside 20..=65536 bytes, inconsistent
    /// lengths, reserved flags, truncated AVPs and more than 256 AVPs are
    /// refused; padding bytes are skipped unread.
    pub fn decode(bytes: &[u8]) -> (res: Result<Message, DiameterError>)
        ensures
            message_result(res) == spec_decode(bytes@),
    {
        let n = bytes.len();
        if !(HEADER_LEN <= n && n <= MAX_FRAME) {
            return Err(DiameterError::FrameSize);
        }
        if !(bytes[0] == 1 && read_u24(bytes, 1) == n) {
            return Err(DiameterError::InvalidHeader);
        }
        if bytes[4] & 0x0f != 0 {
            return Err(DiameterError::ReservedCommandFlags);
        }
        let mut avps: Vec<Avp> = Vec::new();
        assert(avps.deep_view() =~= Seq::<AvpModel>::empty());
        let mut offset: usize = HEADER_LEN;
        while offset < n
            invariant
                n == bytes@.len(),
                HEADER_LEN <= n <= MAX_FRAME,
                HEADER_LEN <= offset <= n,
                bytes@[0] == 1,
                be24_at(bytes@, 1) == n,
                bytes@[4] & 0x0f == 0,
                avps@.len() <= 256,
                parse_avps(bytes@, HEADER_LEN as int, Seq::empty()) == parse_avps(
                    bytes@,
                    offset as int,
                    avps.deep_view(),
                ),
            decreases n - offset,
        {
            if n - offset < 8 {
                return Err(DiameterError::TruncatedAvpHeader);
            }
            let flags = bytes[offset + 4];
            if flags & 0x1f != 0 {
                return Err(DiameterError::ReservedAvpFlags);
            }
            let header: usize = if flags & 0x80 != 0 {
                12
            } else {
                8
            };
            let length = read_u24(bytes, offset + 5);
            if !(length >= header && length <= n - offset) {
                return Err(DiameterError::InvalidAvpLength);
            }
            let padded = (length + 3) / 4 * 4;
            if padded > n - offset {
                return Err(DiameterError::TruncatedAvpPadding);
            }
            if avps.len() >= 256 {
                return Err(DiameterError::TooManyAvps);
            }
            let vendor = if header == 12 {
                Some(read_u32(bytes, offset + 8))
            } else {
                None
            };
            let data = slice_to_vec(slice_subrange(bytes, offset + header, offset + length));
            let avp = Avp { code: read_u32(bytes, offset), flags, vendor, data };
            let ghost old_avps = avps.deep_view();
            avps.push(avp);
            assert(avps.deep_view() =~= old_avps.push(avp.deep_view()));
            offset = offset + padded;
        }
        Ok(
            Message {
                flags: bytes[4],
                command: read_u24(bytes, 5) as u32,
                application: read_u32(bytes, 8),
                hop: read_u32(bytes, 12),
                end: read_u32(bytes, 16),
                avps,
            },
        )
    }

    /// Writes the frame. The command must fit 24 bits, the reserved
    /// command flags must be clear, there may be at most 256 AVPs, each AVP's
    /// vendor flag must agree with its Vendor-Id, and the whole frame must
    /// stay within 65536 bytes.
    pub fn encode(&self) -> (res: Result<Vec<u8>, DiameterError>)
        ensures
            bytes_result(res) == spec_encode(self.deep_view()),
    {
        let ghost m = self.deep_view();
        if !(self.command <= 0xffffff && self.flags & 0x0f == 0) {
            return Err(DiameterError::InvalidCommand);
        }
        if self.avps.len() > 256 {
            return Err(DiameterError::TooManyAvps);
        }
        let mut out: Vec<u8> = Vec::new();
        out.push(1);
        out.push(0);
        out.push(0);
        out.push(0);
        out.push(self.flags);
        push_u24(&mut out, self.command as usize);
        push_u32(&mut out, self.application);
        push_u32(&mut out, self.hop);
        push_u32(&mut out, self.end);
        let ghost head = out@;
        assert(head.len() == 20);
        let count = self.avps.len();
        let mut i: usize = 0;
        while i < count
            invariant
                count == self.avps@.len(),
                count <= 256,
                m == self.deep_view(),
                m.avps.len() == count,
                m.command <= 0xffffff,
                m.flags & 0x0f == 0,
                i <= count,
                head.len() == 20,
                encode_avps(m.avps, i as int) is Ok,
                out@ == head + body_of(m.avps, i as int),
                out@.len() <= MAX_FRAME,
            decreases count - i,
        {
            let a = &self.avps[i];
            assert(a.deep_view() == m.avps[i as int]);
            if !(a.flags & 0x1f == 0 && (a.flags & 0x80 != 0) == a.vendor.is_some()) {
                proof {
                    lemma_encode_avps_error_sticks(m.avps, i + 1, count as int);
                }
                return Err(DiameterError::InvalidAvpFlags);
            }
            let h: usize = if a.vendor.is_some() {
                12
            } else {
                8
            };
            let dlen = a.data.len();
            if dlen > usize::MAX - h {
                proof {
                    lemma_encode_avps_error_sticks(m.avps, i + 1, count as int);
                }
                return Err(DiameterError::AvpTooLarge);
            }
            let length = dlen + h;
            if !(length <= MAX_FRAME && out.len() + (length + 3) / 4 * 4 <= MAX_FRAME) {
                proof {
                    lemma_encode_avps_error_sticks(m.avps, i + 1, count as int);
                }
                return Err(DiameterError::FrameTooLarge);
            }
            let ghost before = out@;
            write_avp(&mut out, a, length);
            proof {
                assert(body_of(m.avps, i + 1) == body_of(m.avps, i as int) + avp_wire(
                    m.avps[i as int],
                ));
                assert(out@ =~= head + body_of(m.avps, i + 1));
            }
            i = i + 1;
        }
        let len = out.len();
        out.set(1, (len / 65536 % 256) as u8);
        out.set(2, (len / 256 % 256) as u8);
        out.set(3, (len % 256) as u8);
        proof {
            assert(m.avps.len() == count);
            let body = body_of(m.avps, count as int);
            assert(out@ =~= header_wire(m, (HEADER_LEN + body.len()) as nat) + body);
        }
        Ok(out)
    }
}

} // verus!
