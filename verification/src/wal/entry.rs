//! One log record and its wire format.

use crate::text::{decimal_string, decimal_text, string_from_utf8};
use crate::wal::buffer::{
    buffer_as_slice, buffer_bytes, buffer_new, buffer_put_slice, buffer_put_u32_le,
    buffer_put_u64_le, buffer_put_u8,
};
use crate::wal::checksum::{crc32, crc32_ieee};
use crate::wal::error::{WalError, WalErrorView};
use vstd::bytes::{
    spec_u32_from_le_bytes, spec_u32_to_le_bytes, spec_u64_from_le_bytes, spec_u64_to_le_bytes,
    u32_from_le_bytes, u64_from_le_bytes,
};
use vstd::prelude::*;
use vstd::slice::slice_subrange;
use vstd::string::StringExecFns;
use vstd::utf8::{decode_utf8, encode_utf8, valid_utf8};

verus! {

/// Bytes before the key: three `u64`, the operation byte, two lengths.
pub const HEADER_LEN: usize = 41;

/// Bytes of the trailing checksum.
pub const CHECKSUM_LEN: usize = 4;

/// The shortest input the decoder looks at before calling it too short.
pub const MIN_RECORD_LEN: usize = 37;

/// The kind of mutation a record carries.
#[derive(Debug, Clone, Copy, PartialEq, Eq, Structural)]
pub enum OpType {
    /// Store a value under the key (wire name SET).
    Put,
    Del,
    Incr,
    /// Compare-and-swap.
    Cas,
}

impl OpType {
    /// The byte that stands for this operation on the wire.
    pub open spec fn code(self) -> u8 {
        match self {
            OpType::Put => 0,
            OpType::Del => 1,
            OpType::Incr => 2,
            OpType::Cas => 3,
        }
    }

    /// The operation a wire byte stands for, if any.
    pub open spec fn from_code(v: u8) -> Option<OpType> {
        if v == 0 {
            Some(OpType::Put)
        } else if v == 1 {
            Some(OpType::Del)
        } else if v == 2 {
            Some(OpType::Incr)
        } else if v == 3 {
            Some(OpType::Cas)
        } else {
            None
        }
    }

    pub fn from_u8(v: u8) -> (r: Option<Self>)
        ensures
            r == Self::from_code(v),
    {
        match v {
            0 => Some(OpType::Put),
            1 => Some(OpType::Del),
            2 => Some(OpType::Incr),
            3 => Some(OpType::Cas),
            _ => None,
        }
    }

    pub fn as_u8(&self) -> (r: u8)
        ensures
            r == self.code(),
    {
        match self {
            OpType::Put => 0,
            OpType::Del => 1,
            OpType::Incr => 2,
            OpType::Cas => 3,
        }
    }
}

/// Every operation survives the trip through its wire byte, and a byte that
/// decodes at all encodes back to itself.
pub proof fn lemma_op_code_round_trip(op: OpType, v: u8)
    ensures
        OpType::from_code(op.code()) == Some(op),
        OpType::from_code(v) matches Some(o) ==> o.code() == v,
        OpType::from_code(v) is Some <==> v <= 3,
{
}

/// One logged mutation.
#[derive(Debug)]
pub struct WalEntry {
    /// Wall-clock time of the mutation, nanoseconds since the Unix epoch.
    pub timestamp: u64,
    pub key: String,
    /// Empty for a delete.
    pub value: Vec<u8>,
    pub version: u64,
    /// Time to live in nanoseconds; `None` for an entry that does not expire.
    pub ttl: Option<u64>,
    pub op_type: OpType,
}

/// A [`WalEntry`] as plain mathematical data.
pub struct WalEntryView {
    pub timestamp: u64,
    pub key: Seq<char>,
    pub value: Seq<u8>,
    pub version: u64,
    pub ttl: Option<u64>,
    pub op_type: OpType,
}

impl View for WalEntry {
    type V = WalEntryView;

    open spec fn view(&self) -> WalEntryView {
        WalEntryView {
            timestamp: self.timestamp,
            key: self.key@,
            value: self.value@,
            version: self.version,
            ttl: self.ttl,
            op_type: self.op_type,
        }
    }
}

impl WalEntryView {
    /// The key as it travels: its UTF-8 bytes.
    pub open spec fn key_bytes(self) -> Seq<u8> {
        encode_utf8(self.key)
    }

    /// The time to live as written: zero stands for none.
    pub open spec fn ttl_raw(self) -> u64 {
        match self.ttl {
            Some(t) => t,
            None => 0,
        }
    }

    /// Length of the whole record on the wire.
    pub open spec fn encoded_len(self) -> nat {
        (HEADER_LEN + self.key_bytes().len() + self.value.len() + CHECKSUM_LEN) as nat
    }

    /// The record without its checksum: the fixed header, then key and value.
    pub open spec fn encode_body(self) -> Seq<u8> {
        spec_u64_to_le_bytes(self.timestamp) + spec_u64_to_le_bytes(self.version)
            + spec_u64_to_le_bytes(self.ttl_raw()) + seq![self.op_type.code()]
            + spec_u64_to_le_bytes(self.key_bytes().len() as u64) + spec_u64_to_le_bytes(
            self.value.len() as u64,
        ) + self.key_bytes() + self.value
    }

    /// The record on the wire: the body, then the CRC-32 of the body.
    pub open spec fn encode(self) -> Seq<u8> {
        self.encode_body() + spec_u32_to_le_bytes(crc32_ieee(self.encode_body()))
    }

    /// What the data model asks of a record: a time to live, when present, is
    /// not zero (zero is how "none" is written); the key is at most 65535
    /// bytes; a delete carries no value.
    pub open spec fn wf(self) -> bool {
        &&& self.ttl != Some(0u64)
        &&& self.key_bytes().len() <= 65535
        &&& (self.op_type == OpType::Del ==> self.value.len() == 0)
    }
}

/// A record is as long on the wire as `encoded_len` says.
pub proof fn lemma_encode_len(r: WalEntryView)
    ensures
        r.encode_body().len() == HEADER_LEN + r.key_bytes().len() + r.value.len(),
        r.encode().len() == r.encoded_len(),
{
    vstd::bytes::lemma_auto_spec_u64_to_from_le_bytes();
    vstd::bytes::lemma_auto_spec_u32_to_from_le_bytes();
}

impl WalEntry {
    /// Whether the record keeps the data model's rules.
    pub fn is_valid(&self) -> (ok: bool)
        ensures
            ok == self@.wf(),
    {
        let ttl_ok = match self.ttl {
            Some(t) => t != 0,
            None => true,
        };
        let value_ok = match self.op_type {
            OpType::Del => self.value.len() == 0,
            _ => true,
        };
        ttl_ok && self.key.as_str().as_bytes().len() <= 65535 && value_ok
    }

    /// The record's length on the wire, or `None` where it does not fit the
    /// address space.
    pub fn serialized_len(&self) -> (n: Option<usize>)
        ensures
            n is Some <==> self@.encoded_len() <= isize::MAX,
            n matches Some(len) ==> len == self@.encoded_len(),
    {
        let key_len: usize = self.key.as_str().as_bytes().len();
        let value_len: usize = self.value.len();
        let fixed: usize = HEADER_LEN + CHECKSUM_LEN;
        let limit: usize = isize::MAX as usize;
        if key_len > limit - fixed {
            return None;
        }
        if value_len > limit - fixed - key_len {
            return None;
        }
        Some(fixed + key_len + value_len)
    }

    /// Lays the record out for the wire, little-endian, and closes it with
    /// the CRC-32 of everything before the checksum.
    pub fn serialize(&self) -> (out: Vec<u8>)
        requires
            self@.encoded_len() <= isize::MAX,
        ensures
            out@ == self@.encode(),
    {
        let key_bytes = self.key.as_str().as_bytes();
        let ttl_raw: u64 = match self.ttl {
            Some(t) => t,
            None => 0,
        };
        proof {
            vstd::bytes::lemma_auto_spec_u64_to_from_le_bytes();
        }
        let mut buf = buffer_new();
        buffer_put_u64_le(&mut buf, self.timestamp);
        buffer_put_u64_le(&mut buf, self.version);
        buffer_put_u64_le(&mut buf, ttl_raw);
        buffer_put_u8(&mut buf, self.op_type.as_u8());
        buffer_put_u64_le(&mut buf, key_bytes.len() as u64);
        buffer_put_u64_le(&mut buf, self.value.len() as u64);
        buffer_put_slice(&mut buf, key_bytes);
        buffer_put_slice(&mut buf, self.value.as_slice());
        assert(buffer_bytes(buf) =~= self@.encode_body());
        let checksum: u32 = crc32(buffer_as_slice(&buf));
        buffer_put_u32_le(&mut buf, checksum);
        vstd::slice::slice_to_vec(buffer_as_slice(&buf))
    }
}

/// The error for an input that ends before a field does.
pub open spec fn eof_error(offset: int) -> WalErrorView {
    WalErrorView::InvalidEntry { offset: offset as u64, reason: "unexpected EOF"@ }
}

/// Reads a little-endian `u64` at `*offset` and steps over it. Past the end
/// of `data` nothing is read and the offset stays.
pub fn read_u64(data: &[u8], offset: &mut usize) -> (r: Result<u64, WalError>)
    ensures
        *old(offset) + 8 <= data@.len() ==> *final(offset) == *old(offset) + 8 && r == Ok::<
            u64,
            WalError,
        >(spec_u64_from_le_bytes(data@.subrange(*old(offset) as int, *old(offset) + 8))),
        *old(offset) + 8 > data@.len() ==> *final(offset) == *old(offset) && (r matches Err(e)
            && e@ == eof_error(*old(offset) as int)),
{
    let at: usize = *offset;
    if data.len() < 8 || at > data.len() - 8 {
        return Err(
            WalError::InvalidEntry { offset: at as u64, reason: "unexpected EOF".to_owned() },
        );
    }
    let val: u64 = u64_from_le_bytes(slice_subrange(data, at, at + 8));
    *offset = at + 8;
    Ok(val)
}

/// Reads a little-endian `u32` at `*offset` and steps over it.
pub fn read_u32(data: &[u8], offset: &mut usize) -> (r: Result<u32, WalError>)
    ensures
        *old(offset) + 4 <= data@.len() ==> *final(offset) == *old(offset) + 4 && r == Ok::<
            u32,
            WalError,
        >(spec_u32_from_le_bytes(data@.subrange(*old(offset) as int, *old(offset) + 4))),
        *old(offset) + 4 > data@.len() ==> *final(offset) == *old(offset) && (r matches Err(e)
            && e@ == eof_error(*old(offset) as int)),
{
    let at: usize = *offset;
    if data.len() < 4 || at > data.len() - 4 {
        return Err(
            WalError::InvalidEntry { offset: at as u64, reason: "unexpected EOF".to_owned() },
        );
    }
    let val: u32 = u32_from_le_bytes(slice_subrange(data, at, at + 4));
    *offset = at + 4;
    Ok(val)
}

/// Reads the byte at `*offset` and steps over it.
pub fn read_u8(data: &[u8], offset: &mut usize) -> (r: Result<u8, WalError>)
    ensures
        *old(offset) < data@.len() ==> *final(offset) == *old(offset) + 1 && r == Ok::<
            u8,
            WalError,
        >(data@[*old(offset) as int]),
        *old(offset) >= data@.len() ==> *final(offset) == *old(offset) && (r matches Err(e)
            && e@ == eof_error(*old(offset) as int)),
{
    let at: usize = *offset;
    if at >= data.len() {
        return Err(
            WalError::InvalidEntry { offset: at as u64, reason: "unexpected EOF".to_owned() },
        );
    }
    let val: u8 = data[at];
    *offset = at + 1;
    Ok(val)
}

/// The key length a header declares.
pub open spec fn declared_key_len(data: Seq<u8>) -> u64 {
    spec_u64_from_le_bytes(data.subrange(25, 33))
}

/// The value length a header declares.
pub open spec fn declared_value_len(data: Seq<u8>) -> u64 {
    spec_u64_from_le_bytes(data.subrange(33, 41))
}

/// The length of the record that the header at the front of `data` declares,
/// checksum included.
pub open spec fn declared_record_len(data: Seq<u8>) -> int {
    HEADER_LEN + declared_key_len(data) + declared_value_len(data) + CHECKSUM_LEN
}

/// What the front of `data` decodes to: the record and the number of bytes
/// it took, or the reason why there is no record there. The checks come in
/// this order: length, header, declared lengths, key text, checksum,
/// operation byte.
pub open spec fn decode(data: Seq<u8>) -> Result<(WalEntryView, nat), WalErrorView> {
    if data.len() < MIN_RECORD_LEN {
        Err(WalErrorView::InvalidEntry { offset: 0, reason: "too short"@ })
    } else if data.len() < HEADER_LEN {
        Err(eof_error(33))
    } else if data.len() < declared_record_len(data) {
        Err(WalErrorView::InvalidEntry { offset: 0, reason: "incomplete data"@ })
    } else {
        let key_end = HEADER_LEN + declared_key_len(data);
        let body_end = key_end + declared_value_len(data);
        let key_bytes = data.subrange(HEADER_LEN as int, key_end);
        let stored = spec_u32_from_le_bytes(data.subrange(body_end, body_end + 4));
        let computed = crc32_ieee(data.subrange(0, body_end));
        let ttl_raw = spec_u64_from_le_bytes(data.subrange(16, 24));
        if !valid_utf8(key_bytes) {
            Err(WalErrorView::InvalidEntry { offset: 0, reason: "invalid UTF-8 key"@ })
        } else if stored != computed {
            Err(WalErrorView::ChecksumMismatch { offset: 0, expected: computed, got: stored })
        } else {
            match OpType::from_code(data[24]) {
                None => Err(
                    WalErrorView::InvalidEntry {
                        offset: 0,
                        reason: "unknown op type: "@ + decimal_text(data[24] as nat),
                    },
                ),
                Some(op) => Ok(
                    (
                        WalEntryView {
                            timestamp: spec_u64_from_le_bytes(data.subrange(0, 8)),
                            key: decode_utf8(key_bytes),
                            value: data.subrange(key_end, body_end),
                            version: spec_u64_from_le_bytes(data.subrange(8, 16)),
                            ttl: if ttl_raw == 0 {
                                None
                            } else {
                                Some(ttl_raw)
                            },
                            op_type: op,
                        },
                        (body_end + 4) as nat,
                    ),
                ),
            }
        }
    }
}

impl WalEntry {
    /// Decodes the record at the front of `data` and says how many bytes it
    /// took. Bytes after the record are not looked at.
    pub fn deserialize(data: &[u8]) -> (r: Result<(WalEntry, usize), WalError>)
        ensures
            match r {
                Ok((entry, used)) => decode(data@) == Ok::<(WalEntryView, nat), WalErrorView>(
                    (entry@, used as nat),
                ),
                Err(e) => decode(data@) == Err::<(WalEntryView, nat), WalErrorView>(e@),
            },
    {
        if data.len() < MIN_RECORD_LEN {
            return Err(WalError::InvalidEntry { offset: 0, reason: "too short".to_owned() });
        }
        let mut offset: usize = 0;
        let timestamp: u64 = match read_u64(data, &mut offset) {
            Ok(v) => v,
            Err(e) => { return Err(e); },
        };
        let version: u64 = match read_u64(data, &mut offset) {
            Ok(v) => v,
            Err(e) => { return Err(e); },
        };
        let ttl_raw: u64 = match read_u64(data, &mut offset) {
            Ok(v) => v,
            Err(e) => { return Err(e); },
        };
        let op_byte: u8 = match read_u8(data, &mut offset) {
            Ok(v) => v,
            Err(e) => { return Err(e); },
        };
        let key_len: u64 = match read_u64(data, &mut offset) {
            Ok(v) => v,
            Err(e) => { return Err(e); },
        };
        let value_len: u64 = match read_u64(data, &mut offset) {
            Ok(v) => v,
            Err(e) => { return Err(e); },
        };
        assert(offset == HEADER_LEN);
        let room: usize = data.len() - HEADER_LEN;
        if room < CHECKSUM_LEN || key_len > (room - CHECKSUM_LEN) as u64 || value_len > (room
            - CHECKSUM_LEN) as u64 - key_len {
            return Err(WalError::InvalidEntry { offset: 0, reason: "incomplete data".to_owned() });
        }
        let key_end: usize = HEADER_LEN + key_len as usize;
        let body_end: usize = key_end + value_len as usize;
        let key = match string_from_utf8(slice_subrange(data, HEADER_LEN, key_end)) {
            Some(k) => k,
            None => {
                return Err(
                    WalError::InvalidEntry { offset: 0, reason: "invalid UTF-8 key".to_owned() },
                );
            },
        };
        let value = vstd::slice::slice_to_vec(slice_subrange(data, key_end, body_end));
        offset = body_end;
        let checksum_stored: u32 = match read_u32(data, &mut offset) {
            Ok(v) => v,
            Err(e) => { return Err(e); },
        };
        let checksum_computed: u32 = crc32(slice_subrange(data, 0, body_end));
        if checksum_stored != checksum_computed {
            return Err(
                WalError::ChecksumMismatch {
                    offset: 0,
                    expected: checksum_computed,
                    got: checksum_stored,
                },
            );
        }
        let ttl = if ttl_raw == 0 {
            None
        } else {
            Some(ttl_raw)
        };
        let op_type = match OpType::from_u8(op_byte) {
            Some(op) => op,
            None => {
                let mut reason = "unknown op type: ".to_owned();
                let digits = decimal_string(op_byte as u64);
                reason.append(digits.as_str());
                return Err(WalError::InvalidEntry { offset: 0, reason });
            },
        };
        Ok((WalEntry { timestamp, key, value, version, ttl, op_type }, offset))
    }
}

/// Round trip: whatever follows it in the input, an encoded record decodes
/// to itself and takes exactly its own length. The one condition on the
/// record is that a time to live, when present, is not zero, since zero on
/// the wire means none. (The length bound says that the two length fields
/// can hold the lengths.)
pub proof fn lemma_decode_encode(r: WalEntryView, rest: Seq<u8>)
    requires
        r.ttl != Some(0u64),
        r.encoded_len() <= u64::MAX,
    ensures
        decode(r.encode() + rest) == Ok::<(WalEntryView, nat), WalErrorView>(
            (r, r.encoded_len()),
        ),
{
    vstd::bytes::lemma_auto_spec_u64_to_from_le_bytes();
    vstd::bytes::lemma_auto_spec_u32_to_from_le_bytes();
    vstd::utf8::encode_utf8_valid_utf8(r.key);
    vstd::utf8::encode_utf8_decode_utf8(r.key);
    lemma_op_code_round_trip(r.op_type, 0);
    let data = r.encode() + rest;
    let body = r.encode_body();
    let kl = r.key_bytes().len() as int;
    let vl = r.value.len() as int;
    assert(body.len() == HEADER_LEN + kl + vl);
    assert(data.subrange(0, 8) =~= spec_u64_to_le_bytes(r.timestamp));
    assert(data.subrange(8, 16) =~= spec_u64_to_le_bytes(r.version));
    assert(data.subrange(16, 24) =~= spec_u64_to_le_bytes(r.ttl_raw()));
    assert(data[24] == r.op_type.code());
    assert(data.subrange(25, 33) =~= spec_u64_to_le_bytes(kl as u64));
    assert(data.subrange(33, 41) =~= spec_u64_to_le_bytes(vl as u64));
    assert(declared_key_len(data) == kl);
    assert(declared_value_len(data) == vl);
    assert(data.subrange(HEADER_LEN as int, HEADER_LEN + kl) =~= r.key_bytes());
    assert(data.subrange(HEADER_LEN + kl, HEADER_LEN + kl + vl) =~= r.value);
    assert(data.subrange(0, HEADER_LEN + kl + vl) =~= body);
    assert(data.subrange(HEADER_LEN + kl + vl, HEADER_LEN + kl + vl + 4)
        =~= spec_u32_to_le_bytes(crc32_ieee(body)));
}

/// `deserialize(serialize(rec)) == rec`, stated on the models.
pub proof fn lemma_round_trip(r: WalEntryView)
    requires
        r.ttl != Some(0u64),
        r.encoded_len() <= u64::MAX,
    ensures
        decode(r.encode()) == Ok::<(WalEntryView, nat), WalErrorView>((r, r.encoded_len())),
{
    lemma_decode_encode(r, Seq::<u8>::empty());
    assert(r.encode() + Seq::<u8>::empty() =~= r.encode());
}

/// The other direction: where the front of `data` decodes, the record found
/// encodes to exactly the bytes it took, and its time to live is not zero.
/// So `decode` accepts the encodings of records and nothing else.
pub proof fn lemma_encode_decode(data: Seq<u8>)
    ensures
        decode(data) matches Ok((r, n)) ==> {
            &&& n <= data.len()
            &&& n == r.encoded_len()
            &&& data.subrange(0, n as int) == r.encode()
            &&& r.ttl != Some(0u64)
        },
{
    if let Ok((r, n)) = decode(data) {
        vstd::bytes::lemma_auto_spec_u64_to_from_le_bytes();
        vstd::bytes::lemma_auto_spec_u32_to_from_le_bytes();
        let kl = declared_key_len(data) as int;
        let vl = declared_value_len(data) as int;
        let key_bytes = data.subrange(HEADER_LEN as int, HEADER_LEN + kl);
        vstd::utf8::decode_utf8_encode_utf8(key_bytes);
        lemma_op_code_round_trip(r.op_type, data[24]);
        assert(r.key_bytes() == key_bytes);
        let body = r.encode_body();
        let body_end = HEADER_LEN + kl + vl;
        assert(data.subrange(25, 33).len() == 8);
        assert(data.subrange(33, 41).len() == 8);
        assert(body =~= data.subrange(0, body_end)) by {
            assert(spec_u64_to_le_bytes(r.timestamp) == data.subrange(0, 8));
            assert(spec_u64_to_le_bytes(r.version) == data.subrange(8, 16));
            assert(spec_u64_to_le_bytes(r.ttl_raw()) == data.subrange(16, 24));
            assert(spec_u64_to_le_bytes(kl as u64) == data.subrange(25, 33));
            assert(spec_u64_to_le_bytes(vl as u64) == data.subrange(33, 41));
        }
        assert(spec_u32_to_le_bytes(crc32_ieee(body)) == data.subrange(body_end, body_end + 4));
        assert(data.subrange(0, n as int) =~= r.encode());
    }
}

} // verus!
