//! Building AVPs and looking them up inside a message.
use super::codec::{
    avp_flags_ok, avp_length, avp_wire, encode_avps, lemma_avp_wire_len, spec_decode, spec_encode,
    zeros, HEADER_LEN, MAX_FRAME,
};
use super::{message_result, Avp, AvpModel, DiameterError, Message, MessageModel};
use crate::text::utf8_text;
use crate::wire::{be32_at, push_u24, read_u32, round4, u24_bytes, u32_bytes};
use vstd::prelude::*;
use vstd::slice::{slice_subrange, slice_to_vec};
use vstd::utf8::{decode_utf8, valid_utf8};

verus! {

/// An AVP with the Mandatory flag, no vendor and the given data.
pub open spec fn avp_octets(code: u32, data: Seq<u8>) -> AvpModel {
    AvpModel { code, flags: 0x40, vendor: None, data }
}

/// An AVP holding a 32-bit big-endian number.
pub open spec fn avp_number(code: u32, v: u32) -> AvpModel {
    avp_octets(code, u32_bytes(v))
}

/// A message with a zero header around `avps`, used to lay out grouped AVPs.
pub open spec fn bare(avps: Seq<AvpModel>) -> MessageModel {
    MessageModel { flags: 0, command: 0, application: 0, hop: 0, end: 0, avps }
}

/// A grouped AVP whose data is the wire form of `avps`.
pub open spec fn spec_grouped(code: u32, avps: Seq<AvpModel>) -> Result<AvpModel, DiameterError> {
    match spec_encode(bare(avps)) {
        Err(e) => Err(e),
        Ok(b) => Ok(avp_octets(code, b.subrange(HEADER_LEN as int, b.len() as int))),
    }
}

/// A grouped AVP holding one CC-Time (420) of `seconds`.
pub open spec fn time_units(code: u32, seconds: u32) -> AvpModel {
    avp_octets(code, avp_wire(avp_number(420, seconds)))
}

/// The AVPs among the first `n` with the given code and no vendor, in order.
pub open spec fn code_matches(avps: Seq<AvpModel>, code: u32, n: int) -> Seq<AvpModel>
    decreases n,
{
    if n <= 0 {
        Seq::empty()
    } else {
        let prev = code_matches(avps, code, n - 1);
        if avps[n - 1].code == code && avps[n - 1].vendor is None {
            prev.push(avps[n - 1])
        } else {
            prev
        }
    }
}

/// The AVPs of `m` with the given code and no vendor, in order.
pub open spec fn matching(m: MessageModel, code: u32) -> Seq<AvpModel> {
    code_matches(m.avps, code, m.avps.len() as int)
}

/// The single AVP with this code, none, or an error when it repeats.
pub open spec fn spec_unique(m: MessageModel, code: u32) -> Result<Option<AvpModel>, DiameterError> {
    let found = matching(m, code);
    if found.len() > 1 {
        Err(DiameterError::DuplicateAvp)
    } else if found.len() == 1 {
        Ok(Some(found[0]))
    } else {
        Ok(None)
    }
}

/// The 32-bit value of the single AVP with this code.
pub open spec fn spec_integer(m: MessageModel, code: u32) -> Result<u32, DiameterError> {
    match spec_unique(m, code) {
        Err(e) => Err(e),
        Ok(None) => Err(DiameterError::MissingInteger),
        Ok(Some(a)) => if a.data.len() != 4 {
            Err(DiameterError::InvalidInteger)
        } else {
            Ok(be32_at(a.data, 0))
        },
    }
}

/// The text of the single AVP with this code: 1 to 255 bytes of UTF-8.
pub open spec fn spec_text(m: MessageModel, code: u32) -> Result<Seq<char>, DiameterError> {
    match spec_unique(m, code) {
        Err(e) => Err(e),
        Ok(None) => Err(DiameterError::MissingText),
        Ok(Some(a)) => if !(a.data.len() > 0 && a.data.len() <= 255) {
            Err(DiameterError::InvalidText)
        } else if !valid_utf8(a.data) {
            Err(DiameterError::InvalidUtf8)
        } else {
            Ok(decode_utf8(a.data))
        },
    }
}

/// The frame that reads the data of a grouped AVP as a message body.
pub open spec fn group_frame(data: Seq<u8>) -> Seq<u8> {
    seq![1u8] + u24_bytes((HEADER_LEN + data.len()) as nat) + zeros(16) + data
}

/// The AVPs inside a grouped AVP, read as a message with a zero header.
pub open spec fn spec_group(a: AvpModel) -> Result<MessageModel, DiameterError> {
    if a.data.len() > MAX_FRAME - HEADER_LEN {
        Err(DiameterError::GroupTooLarge)
    } else {
        spec_decode(group_frame(a.data))
    }
}

/// The optional AVP inside a fallible lookup, by value.
pub open spec fn lookup_result(r: Result<Option<usize>, DiameterError>, m: &Message) -> Result<
    Option<AvpModel>,
    DiameterError,
> {
    match r {
        Ok(Some(i)) => Ok(Some(m.avps@[i as int].deep_view())),
        Ok(None) => Ok(None),
        Err(e) => Err(e),
    }
}

/// The text inside a fallible read, by value.
pub open spec fn text_result(r: Result<String, DiameterError>) -> Result<Seq<char>, DiameterError> {
    match r {
        Ok(s) => Ok(s@),
        Err(e) => Err(e),
    }
}

proof fn lemma_code_matches_len(avps: Seq<AvpModel>, code: u32, n: int)
    ensures
        code_matches(avps, code, n).len() <= if n < 0 {
            0
        } else {
            n
        },
    decreases n,
{
    if n > 0 {
        lemma_code_matches_len(avps, code, n - 1);
    }
}

/// Grouped AVP of a single CC-Time always lays out as [`time_units`].
pub proof fn lemma_grouped_time(code: u32, seconds: u32)
    ensures
        spec_grouped(code, seq![avp_number(420, seconds)]) == Ok::<AvpModel, DiameterError>(
            time_units(code, seconds),
        ),
{
    let a = avp_number(420, seconds);
    let avps = seq![a];
    assert(0x40u8 & 0x1f == 0 && 0x40u8 & 0x80 == 0) by (bit_vector);
    assert(0u8 & 0x0f == 0) by (bit_vector);
    lemma_avp_wire_len(a);
    assert(avps[0] == a);
    assert(avp_flags_ok(a));
    assert(avp_length(a) == 12);
    assert(round4(12) == 12);
    assert(encode_avps(avps, 0) == Ok::<Seq<u8>, DiameterError>(Seq::empty()));
    let body = Seq::<u8>::empty() + avp_wire(a);
    assert(encode_avps(avps, 1) == Ok::<Seq<u8>, DiameterError>(body));
    assert(spec_encode(bare(avps)) is Ok);
    let b = spec_encode(bare(avps))->Ok_0;
    assert(b.len() == 20 + body.len());
    assert(b.subrange(HEADER_LEN as int, b.len() as int) =~= avp_wire(a));
}

impl Avp {
    /// An AVP with the Mandatory flag, no vendor and the given data.
    pub(crate) fn octets(code: u32, data: Vec<u8>) -> (a: Avp)
        ensures
            a.deep_view() == avp_octets(code, data@),
    {
        Avp { code, flags: 0x40, vendor: None, data }
    }

    /// An AVP holding a 32-bit big-endian number.
    pub(crate) fn number(code: u32, value: u32) -> (a: Avp)
        ensures
            a.deep_view() == avp_number(code, value),
    {
        let mut data: Vec<u8> = Vec::new();
        crate::wire::push_u32(&mut data, value);
        assert(data@ =~= u32_bytes(value));
        Self::octets(code, data)
    }

    /// A grouped AVP whose data is the encoding of `avps`.
    pub(crate) fn grouped(code: u32, avps: Vec<Avp>) -> (res: Result<Avp, DiameterError>)
        ensures
            match res {
                Ok(a) => spec_grouped(code, avps.deep_view()) == Ok::<AvpModel, DiameterError>(
                    a.deep_view(),
                ),
                Err(e) => spec_grouped(code, avps.deep_view()) == Err::<AvpModel, DiameterError>(e),
            },
    {
        let m = Message { flags: 0, command: 0, application: 0, hop: 0, end: 0, avps };
        assert(m.deep_view() == bare(avps.deep_view()));
        let bytes = m.encode()?;
        let n = bytes.len();
        assert(n >= HEADER_LEN) by {
            assert(bytes@ == spec_encode(bare(avps.deep_view()))->Ok_0);
        }
        let data = slice_to_vec(slice_subrange(bytes.as_slice(), HEADER_LEN, n));
        Ok(Self::octets(code, data))
    }

    /// A grouped AVP holding one CC-Time (420) of `seconds`.
    pub(crate) fn time_units(code: u32, seconds: u32) -> (a: Avp)
        ensures
            a.deep_view() == time_units(code, seconds),
    {
        let inner = vec![Self::number(420, seconds)];
        proof {
            assert(inner.deep_view() =~= seq![avp_number(420, seconds)]);
            lemma_grouped_time(code, seconds);
        }
        match Self::grouped(code, inner) {
            Ok(a) => a,
            Err(e) => {
                proof {
                    assert(false);
                }
                Self::octets(code, Vec::new())
            },
        }
    }
}

impl Message {
    /// Position of the single AVP with this code and no vendor, if any.
    pub(crate) fn unique(&self, code: u32) -> (res: Result<Option<usize>, DiameterError>)
        ensures
            lookup_result(res, self) == spec_unique(self.deep_view(), code),
            res matches Ok(Some(i)) ==> i < self.avps@.len(),
    {
        let ghost avps = self.deep_view().avps;
        let n = self.avps.len();
        let mut count: usize = 0;
        let mut first: usize = 0;
        let mut i: usize = 0;
        while i < n
            invariant
                n == self.avps@.len(),
                avps == self.deep_view().avps,
                i <= n,
                count == code_matches(avps, code, i as int).len(),
                count >= 1 ==> first < n && code_matches(avps, code, i as int)[0]
                    == avps[first as int],
            decreases n - i,
        {
            proof {
                lemma_code_matches_len(avps, code, i as int);
            }
            let a = &self.avps[i];
            assert(a.deep_view() == avps[i as int]);
            if a.code == code && a.vendor.is_none() {
                if count == 0 {
                    first = i;
                }
                count = count + 1;
            }
            i = i + 1;
        }
        if count > 1 {
            return Err(DiameterError::DuplicateAvp);
        }
        if count == 1 {
            Ok(Some(first))
        } else {
            Ok(None)
        }
    }

    /// The 32-bit value of the single AVP with this code.
    pub(crate) fn integer(&self, code: u32) -> (res: Result<u32, DiameterError>)
        ensures
            res == spec_integer(self.deep_view(), code),
    {
        let idx = match self.unique(code) {
            Err(e) => {
                return Err(e);
            },
            Ok(None) => {
                return Err(DiameterError::MissingInteger);
            },
            Ok(Some(i)) => i,
        };
        let a = &self.avps[idx];
        if a.data.len() != 4 {
            return Err(DiameterError::InvalidInteger);
        }
        Ok(read_u32(a.data.as_slice(), 0))
    }

    /// The text of the single AVP with this code.
    pub(crate) fn text(&self, code: u32) -> (res: Result<String, DiameterError>)
        ensures
            text_result(res) == spec_text(self.deep_view(), code),
    {
        let idx = match self.unique(code) {
            Err(e) => {
                return Err(e);
            },
            Ok(None) => {
                return Err(DiameterError::MissingText);
            },
            Ok(Some(i)) => i,
        };
        let a = &self.avps[idx];
        if !(a.data.len() > 0 && a.data.len() <= 255) {
            return Err(DiameterError::InvalidText);
        }
        match utf8_text(a.data.as_slice()) {
            Some(s) => Ok(s),
            None => Err(DiameterError::InvalidUtf8),
        }
    }

    /// The AVPs inside a grouped AVP.
    pub(crate) fn group(avp: &Avp) -> (res: Result<Message, DiameterError>)
        ensures
            message_result(res) == spec_group(avp.deep_view()),
    {
        let len = avp.data.len();
        if len > MAX_FRAME - HEADER_LEN {
            return Err(DiameterError::GroupTooLarge);
        }
        let mut bytes: Vec<u8> = Vec::new();
        bytes.push(1);
        push_u24(&mut bytes, HEADER_LEN + len);
        let mut z: usize = 0;
        while z < 16
            invariant
                z <= 16,
                bytes@ == seq![1u8] + u24_bytes((HEADER_LEN + len) as nat) + zeros(z as int),
            decreases 16 - z,
        {
            bytes.push(0);
            assert(zeros(z + 1) =~= zeros(z as int).push(0u8));
            z = z + 1;
        }
        let ghost head = bytes@;
        let mut j: usize = 0;
        while j < len
            invariant
                j <= len,
                len == avp.data@.len(),
                bytes@ == head + avp.data@.take(j as int),
            decreases len - j,
        {
            bytes.push(avp.data[j]);
            assert(avp.data@.take(j + 1) =~= avp.data@.take(j as int).push(avp.data@[j as int]));
            j = j + 1;
        }
        assert(avp.data@.take(len as int) =~= avp.data@);
        assert(bytes@ =~= group_frame(avp.data@));
        Self::decode(bytes.as_slice())
    }
}

} // verus!
