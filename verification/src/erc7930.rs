//! ERC-7930 interoperable addresses: a compact binary format that binds a
//! chain reference and an address into one payload.
//!
//! ```text
//! | Version | ChainType | ChainReferenceLength | ChainReference | AddressLength | Address |
//! | 2 bytes | 2 bytes   | 1 byte               | variable       | 1 byte        | variable|
//! ```
use vstd::prelude::*;

use crate::error::{u16_hex, u16_hex_text, Error};
use crate::hex::{
    hex_decode, hex_decode_spec, hex_encode, hex_lower, lemma_hex_decode_plain,
    lemma_hex_decode_prefixed,
};

verus! {

/// Current ERC-7930 version.
pub const VERSION_1: u16 = 0x0001;

/// CASA namespace for EVM chains.
pub const CHAIN_TYPE_EVM: u16 = 0x0000;

/// An ERC-7930 interoperable address.
#[derive(Debug, Clone, PartialEq, Eq, Hash)]
pub struct InteropAddress {
    /// Protocol version (`0x0001` for v1).
    pub version: u16,
    /// CASA namespace identifier (`0x0000` for EVM).
    pub chain_type: u16,
    /// Binary chain reference (the big-endian chain id for EVM).
    pub chain_ref: Vec<u8>,
    /// Binary address (20 bytes for EVM).
    pub address: Vec<u8>,
}

/// The abstract content of an [`InteropAddress`].
pub struct InteropAddressModel {
    /// Protocol version.
    pub version: u16,
    /// CASA namespace identifier.
    pub chain_type: u16,
    /// The chain reference bytes.
    pub chain_ref: Seq<u8>,
    /// The address bytes.
    pub address: Seq<u8>,
}

impl View for InteropAddress {
    type V = InteropAddressModel;

    open spec fn view(&self) -> InteropAddressModel {
        InteropAddressModel {
            version: self.version,
            chain_type: self.chain_type,
            chain_ref: self.chain_ref@,
            address: self.address@,
        }
    }
}

impl InteropAddressModel {
    /// Both variable fields fit their one-byte length prefix.
    pub open spec fn encodable(self) -> bool {
        self.chain_ref.len() <= 255 && self.address.len() <= 255
    }

    /// What the decoder accepts: version 1, encodable, and not both fields
    /// empty.
    pub open spec fn well_formed(self) -> bool {
        &&& self.version == VERSION_1
        &&& self.encodable()
        &&& !(self.chain_ref.len() == 0 && self.address.len() == 0)
    }

    /// The wire encoding.
    pub open spec fn encoding(self) -> Seq<u8> {
        seq![
            (self.version / 256) as u8,
            (self.version % 256) as u8,
            (self.chain_type / 256) as u8,
            (self.chain_type % 256) as u8,
            self.chain_ref.len() as u8,
        ] + self.chain_ref + seq![self.address.len() as u8] + self.address
    }

    /// The debug form: version and chain type as `{:#06x}`, the chain
    /// reference and the address as quoted lowercase hex.
    pub open spec fn debug_text(self) -> Seq<char> {
        "InteropAddress { version: "@ + u16_hex_text(self.version) + ", chain_type: "@
            + u16_hex_text(self.chain_type) + ", chain_ref: \""@ + hex_lower(self.chain_ref)
            + "\", address: \""@ + hex_lower(self.address) + "\" }"@
    }

    /// The lowercase hex text of the encoding, with a `0x` prefix.
    pub open spec fn hex(self) -> Seq<char> {
        seq!['0', 'x'] + hex_lower(self.encoding())
    }
}

/// What decoding hex text with bytes `text` gives: a hex error, or what
/// decoding the bytes it stands for gives.
pub open spec fn from_hex_spec(text: Seq<u8>) -> Result<InteropAddressModel, Error> {
    match hex_decode_spec(text) {
        Err(e) => Err(Error::Hex(e)),
        Ok(bytes) => decode_spec(bytes),
    }
}

/// The big-endian `u16` made of two bytes.
pub open spec fn be_u16(hi: u8, lo: u8) -> u16 {
    (hi * 256 + lo) as u16
}

/// What decoding `b` gives: the header checks in order, then the two fields.
/// Bytes after the encoded address are ignored.
pub open spec fn decode_spec(b: Seq<u8>) -> Result<InteropAddressModel, Error> {
    if b.len() < 6 {
        Err(Error::BufferTooShort { len: b.len() as usize })
    } else if be_u16(b[0], b[1]) != VERSION_1 {
        Err(Error::UnsupportedVersion { version: be_u16(b[0], b[1]) })
    } else {
        let chain_ref_len = b[4] as int;
        let addr_len_offset = 5 + chain_ref_len;
        if b.len() < addr_len_offset + 1 {
            Err(Error::TruncatedPayload {
                expected: (addr_len_offset + 1) as usize,
                available: b.len() as usize,
            })
        } else {
            let addr_len = b[addr_len_offset] as int;
            let total = addr_len_offset + 1 + addr_len;
            if b.len() < total {
                Err(Error::TruncatedPayload { expected: total as usize, available: b.len() as usize })
            } else if chain_ref_len == 0 && addr_len == 0 {
                Err(Error::EmptyAddress)
            } else {
                Ok(
                    InteropAddressModel {
                        version: be_u16(b[0], b[1]),
                        chain_type: be_u16(b[2], b[3]),
                        chain_ref: b.subrange(5, addr_len_offset),
                        address: b.subrange(addr_len_offset + 1, total),
                    },
                )
            }
        }
    }
}

/// The big-endian value of a byte string.
pub open spec fn be_value(bytes: Seq<u8>) -> nat
    decreases bytes.len(),
{
    if bytes.len() == 0 {
        0
    } else {
        be_value(bytes.drop_last()) * 256 + bytes.last() as nat
    }
}

/// The minimal big-endian encoding of `n`: no leading zero byte, and a single
/// zero byte for zero.
pub open spec fn minimal_be(n: nat) -> Seq<u8>
    decreases n,
{
    if n < 256 {
        seq![n as u8]
    } else {
        minimal_be(n / 256).push((n % 256) as u8)
    }
}

/// The minimal big-endian encoding reads back as the number it encodes, is
/// never empty, and has no leading zero byte unless it is the single byte
/// zero.
pub proof fn lemma_minimal_be(n: nat)
    ensures
        be_value(minimal_be(n)) == n,
        minimal_be(n).len() >= 1,
        minimal_be(n).len() > 1 ==> minimal_be(n)[0] != 0,
    decreases n,
{
    let s = minimal_be(n);
    if n < 256 {
        assert(s.drop_last() =~= Seq::<u8>::empty());
        assert(be_value(s.drop_last()) == 0);
        assert(s.last() == n);
    } else {
        let q = n / 256;
        lemma_minimal_be(q);
        assert(s.drop_last() =~= minimal_be(q));
        assert(q * 256 + n % 256 == n);
        assert(be_value(s) == be_value(minimal_be(q)) * 256 + s.last());
        if q >= 256 {
            lemma_minimal_be(q / 256);
            assert(minimal_be(q).len() == minimal_be(q / 256).len() + 1);
        }
    }
}

/// `256` to the power `k`.
pub open spec fn pow256(k: nat) -> nat
    decreases k,
{
    if k == 0 {
        1
    } else {
        256 * pow256((k - 1) as nat)
    }
}

/// A number below `256^k` has a minimal big-endian encoding of at most `k`
/// bytes (`k >= 1`).
pub proof fn lemma_minimal_be_len(n: nat, k: nat)
    requires
        k >= 1,
        n < pow256(k),
    ensures
        minimal_be(n).len() <= k,
    decreases n,
{
    if n >= 256 {
        assert(k >= 2) by {
            if k == 1 {
                assert(pow256(0) == 1);
            }
        }
        assert(n / 256 < pow256((k - 1) as nat));
        lemma_minimal_be_len(n / 256, (k - 1) as nat);
    }
}

/// Every `u64` fits in eight bytes.
pub proof fn lemma_u64_below_pow256_8()
    ensures
        u64::MAX < pow256(8),
        pow256(8) == u64::MAX + 1,
{
    reveal_with_fuel(pow256, 9);
    assert(pow256(8) == 0x1_0000_0000_0000_0000);
}

/// Encode a `u64` as minimal big-endian bytes (no leading zeros).
pub fn minimal_be_bytes(value: u64) -> (bytes: Vec<u8>)
    ensures
        bytes@ == minimal_be(value as nat),
        be_value(bytes@) == value,
        1 <= bytes@.len() <= 8,
        bytes@.len() > 1 ==> bytes@[0] != 0,
    decreases value,
{
    proof {
        lemma_minimal_be(value as nat);
        lemma_u64_below_pow256_8();
        lemma_minimal_be_len(value as nat, 8);
    }
    if value < 256 {
        let mut bytes: Vec<u8> = Vec::new();
        bytes.push(value as u8);
        bytes
    } else {
        let mut bytes = minimal_be_bytes(value / 256);
        bytes.push((value % 256) as u8);
        bytes
    }
}

impl InteropAddressModel {
    /// The EVM chain id held in the chain reference: its big-endian value
    /// when it has one to eight bytes.
    pub open spec fn evm_chain_id(self) -> Option<u64> {
        if self.chain_ref.len() == 0 || self.chain_ref.len() > 8 {
            None
        } else {
            Some(be_value(self.chain_ref) as u64)
        }
    }
}

/// The model of the EVM address for `chain_id` and `address`.
pub open spec fn evm_model(chain_id: u64, address: Seq<u8>) -> InteropAddressModel {
    InteropAddressModel {
        version: VERSION_1,
        chain_type: CHAIN_TYPE_EVM,
        chain_ref: minimal_be(chain_id as nat),
        address,
    }
}

/// A byte string of `k` bytes has a big-endian value below `256^k`.
pub proof fn lemma_be_value_bound(bytes: Seq<u8>)
    ensures
        be_value(bytes) < pow256(bytes.len()),
    decreases bytes.len(),
{
    if bytes.len() > 0 {
        lemma_be_value_bound(bytes.drop_last());
    }
}

/// `256^i <= 256^j` when `i <= j`.
pub proof fn lemma_pow256_monotone(i: nat, j: nat)
    requires
        i <= j,
    ensures
        pow256(i) <= pow256(j),
    decreases j,
{
    if i < j {
        lemma_pow256_monotone(i, (j - 1) as nat);
    }
}

/// The EVM address built for a chain id is well formed, is an EVM address,
/// and gives back the chain id and the address it was built from.
pub proof fn lemma_evm_model(chain_id: u64, address: Seq<u8>)
    requires
        address.len() <= 255,
    ensures
        evm_model(chain_id, address).well_formed(),
        evm_model(chain_id, address).chain_type == CHAIN_TYPE_EVM,
        evm_model(chain_id, address).evm_chain_id() == Some(chain_id),
        evm_model(chain_id, address).address == address,
{
    lemma_minimal_be(chain_id as nat);
    lemma_u64_below_pow256_8();
    lemma_minimal_be_len(chain_id as nat, 8);
}

/// Reading back the hex text of a well-formed address gives the address.
pub proof fn lemma_from_hex_to_hex(m: InteropAddressModel)
    requires
        m.well_formed(),
    ensures
        from_hex_spec(vstd::utf8::encode_utf8(m.hex())) == Ok::<InteropAddressModel, Error>(m),
{
    lemma_hex_decode_prefixed(m.encoding());
    lemma_decode_encoding(m, Seq::<u8>::empty());
    assert(m.encoding() + Seq::<u8>::empty() =~= m.encoding());
}

/// The chain reference of the EVM address for `chain_id` is its minimal
/// big-endian form: it reads back as `chain_id`, has one to eight bytes, and
/// starts with a zero byte only when it is the single byte zero.
pub proof fn lemma_evm_chain_ref_minimal(chain_id: u64, address: Seq<u8>)
    ensures
        be_value(evm_model(chain_id, address).chain_ref) == chain_id,
        1 <= evm_model(chain_id, address).chain_ref.len() <= 8,
        evm_model(chain_id, address).chain_ref.len() > 1
            ==> evm_model(chain_id, address).chain_ref[0] != 0,
        evm_model(chain_id, address).version == VERSION_1,
        evm_model(chain_id, address).chain_type == CHAIN_TYPE_EVM,
        evm_model(chain_id, address).address == address,
{
    lemma_minimal_be(chain_id as nat);
    lemma_u64_below_pow256_8();
    lemma_minimal_be_len(chain_id as nat, 8);
}

/// The wire layout of an encodable address, byte by byte: version and chain
/// type big-endian, then each variable field after its one-byte length.
pub proof fn lemma_encoding_layout(m: InteropAddressModel)
    requires
        m.encodable(),
    ensures
        m.encoding().len() == 6 + m.chain_ref.len() as int + m.address.len() as int,
        m.encoding()[0] as int == m.version as int / 256,
        m.encoding()[1] as int == m.version as int % 256,
        m.encoding()[2] as int == m.chain_type as int / 256,
        m.encoding()[3] as int == m.chain_type as int % 256,
        m.encoding()[4] as int == m.chain_ref.len(),
        m.encoding().subrange(5, 5 + m.chain_ref.len() as int) == m.chain_ref,
        m.encoding()[5 + m.chain_ref.len() as int] as int == m.address.len(),
        m.encoding().subrange(6 + m.chain_ref.len() as int, 6 + m.chain_ref.len() as int + m.address.len() as int)
            == m.address,
{
    let e = m.encoding();
    let c = m.chain_ref.len() as int;
    let a = m.address.len() as int;
    assert(e.subrange(5, 5 + c) =~= m.chain_ref);
    assert(e.subrange(6 + c, 6 + c + a) =~= m.address);
}

/// What a successful decode reads, byte by byte: version and chain type
/// big-endian from bytes 0-1 and 2-3, the chain reference after its length at
/// byte 4, and the address after its length byte.
pub proof fn lemma_decode_fields(b: Seq<u8>)
    requires
        decode_spec(b) is Ok,
    ensures
        b.len() >= 6,
        decode_spec(b)->Ok_0.version as int == b[0] as int * 256 + b[1] as int,
        decode_spec(b)->Ok_0.version == VERSION_1,
        decode_spec(b)->Ok_0.chain_type as int == b[2] as int * 256 + b[3] as int,
        decode_spec(b)->Ok_0.chain_ref == b.subrange(5, 5 + b[4] as int),
        decode_spec(b)->Ok_0.address == b.subrange(
            6 + b[4] as int,
            6 + b[4] as int + b[5 + b[4] as int] as int,
        ),
{
}

/// Decoding hex text is decoding the bytes it stands for: a hex error is
/// reported as such, and valid hex text, of either case and with or without a
/// `0x` prefix, decodes as its bytes do.
pub proof fn lemma_from_hex_is_decode_of_hex(text: Seq<u8>)
    ensures
        hex_decode_spec(text) matches Ok(bytes) ==> from_hex_spec(text) == decode_spec(bytes),
        hex_decode_spec(text) matches Err(e) ==> from_hex_spec(text) == Err::<
            InteropAddressModel,
            Error,
        >(Error::Hex(e)),
{
}

/// Reading back the hex text of a well-formed address without its `0x`
/// prefix gives the address too.
pub proof fn lemma_from_hex_unprefixed(m: InteropAddressModel)
    requires
        m.well_formed(),
    ensures
        from_hex_spec(vstd::utf8::encode_utf8(hex_lower(m.encoding()))) == Ok::<
            InteropAddressModel,
            Error,
        >(m),
{
    lemma_hex_decode_plain(m.encoding());
    lemma_decode_encoding(m, Seq::<u8>::empty());
    assert(m.encoding() + Seq::<u8>::empty() =~= m.encoding());
}

/// Two encodable addresses with the same encoding are the same address.
pub proof fn lemma_encoding_injective(m1: InteropAddressModel, m2: InteropAddressModel)
    requires
        m1.encodable(),
        m2.encodable(),
        m1.encoding() == m2.encoding(),
    ensures
        m1 == m2,
{
    let e = m1.encoding();
    let e2 = m2.encoding();
    lemma_be_u16_split(m1.version);
    lemma_be_u16_split(m2.version);
    lemma_be_u16_split(m1.chain_type);
    lemma_be_u16_split(m2.chain_type);
    assert(e[0] == (m1.version / 256) as u8 && e[1] == (m1.version % 256) as u8);
    assert(e2[0] == (m2.version / 256) as u8 && e2[1] == (m2.version % 256) as u8);
    assert(e[2] == (m1.chain_type / 256) as u8 && e[3] == (m1.chain_type % 256) as u8);
    assert(e2[2] == (m2.chain_type / 256) as u8 && e2[3] == (m2.chain_type % 256) as u8);
    assert(be_u16(e[0], e[1]) == m1.version);
    assert(be_u16(e2[0], e2[1]) == m2.version);
    assert(be_u16(e[2], e[3]) == m1.chain_type);
    assert(be_u16(e2[2], e2[3]) == m2.chain_type);
    assert(m1.version == m2.version);
    assert(m1.chain_type == m2.chain_type);
    let c = m1.chain_ref.len() as int;
    assert(e[4] == m1.chain_ref.len() as u8);
    assert(e2[4] == m2.chain_ref.len() as u8);
    assert(m2.chain_ref.len() == c);
    assert(m1.chain_ref =~= e.subrange(5, 5 + c));
    assert(m2.chain_ref =~= e2.subrange(5, 5 + c));
    assert(e[5 + c] == m1.address.len() as u8);
    assert(e2[5 + c] == m2.address.len() as u8);
    let a = m1.address.len() as int;
    assert(m2.address.len() == a);
    assert(m1.address =~= e.subrange(6 + c, 6 + c + a));
    assert(m2.address =~= e2.subrange(6 + c, 6 + c + a));
}

/// Two encodable addresses with the same hex text are the same address.
pub proof fn lemma_hex_injective(m1: InteropAddressModel, m2: InteropAddressModel)
    requires
        m1.encodable(),
        m2.encodable(),
        m1.hex() == m2.hex(),
    ensures
        m1 == m2,
{
    lemma_hex_decode_prefixed(m1.encoding());
    lemma_hex_decode_prefixed(m2.encoding());
    lemma_encoding_injective(m1, m2);
}

/// Splitting a `u16` into its two big-endian bytes and joining them again
/// gives the same number.
proof fn lemma_be_u16_split(v: u16)
    ensures
        be_u16((v / 256) as u8, (v % 256) as u8) == v,
{
    assert((v / 256) * 256 + v % 256 == v);
}

/// Decoding an encoded address gives it back, whatever bytes follow it.
pub proof fn lemma_decode_encoding(m: InteropAddressModel, rest: Seq<u8>)
    requires
        m.well_formed(),
    ensures
        decode_spec(m.encoding() + rest) == Ok::<InteropAddressModel, Error>(m),
{
    let b = m.encoding() + rest;
    let crl = m.chain_ref.len() as int;
    let al = m.address.len() as int;
    lemma_be_u16_split(m.version);
    lemma_be_u16_split(m.chain_type);
    assert(b[4] == crl as u8);
    assert(b[5 + crl] == al as u8);
    assert(b.subrange(5, 5 + crl) =~= m.chain_ref);
    assert(b.subrange(5 + crl + 1, 5 + crl + 1 + al) =~= m.address);
}

/// A successful decode reads a well-formed address whose encoding is exactly
/// the bytes it consumed: a prefix of the input.
pub proof fn lemma_decoded_encoding(b: Seq<u8>)
    requires
        decode_spec(b) is Ok,
    ensures
        decode_spec(b)->Ok_0.well_formed(),
        decode_spec(b)->Ok_0.encoding().len() <= b.len(),
        b.subrange(0, decode_spec(b)->Ok_0.encoding().len() as int)
            == decode_spec(b)->Ok_0.encoding(),
{
    let m = decode_spec(b)->Ok_0;
    let crl = b[4] as int;
    let al = b[5 + crl] as int;
    assert(m.chain_ref.len() == crl);
    assert(m.address.len() == al);
    assert((b[0] * 256 + b[1]) / 256 == b[0]);
    assert((b[0] * 256 + b[1]) % 256 == b[1]);
    assert((b[2] * 256 + b[3]) / 256 == b[2]);
    assert((b[2] * 256 + b[3]) % 256 == b[3]);
    assert(b.subrange(0, m.encoding().len() as int) =~= m.encoding());
}

impl InteropAddress {
    /// Decode an interoperable address from raw bytes.
    ///
    /// Fails if the buffer is malformed or uses an unsupported version;
    /// bytes after the encoded address are ignored.
    pub fn decode(bytes: &[u8]) -> (res: Result<Self, Error>)
        ensures
            match res {
                Ok(ia) => decode_spec(bytes@) == Ok::<InteropAddressModel, Error>(ia@),
                Err(e) => decode_spec(bytes@) == Err::<InteropAddressModel, Error>(e),
            },
    {
        if bytes.len() < 6 {
            return Err(Error::BufferTooShort { len: bytes.len() });
        }
        let version: u16 = (bytes[0] as u16) * 256 + bytes[1] as u16;
        if version != VERSION_1 {
            return Err(Error::UnsupportedVersion { version });
        }
        let chain_type: u16 = (bytes[2] as u16) * 256 + bytes[3] as u16;
        let chain_ref_len: usize = bytes[4] as usize;
        let addr_len_offset: usize = 5 + chain_ref_len;
        if bytes.len() < addr_len_offset + 1 {
            return Err(Error::TruncatedPayload { expected: addr_len_offset + 1, available: bytes.len() });
        }
        let addr_len: usize = bytes[addr_len_offset] as usize;
        let total: usize = addr_len_offset + 1 + addr_len;
        if bytes.len() < total {
            return Err(Error::TruncatedPayload { expected: total, available: bytes.len() });
        }
        if chain_ref_len == 0 && addr_len == 0 {
            return Err(Error::EmptyAddress);
        }
        let chain_ref = copy_range(bytes, 5, addr_len_offset);
        let address = copy_range(bytes, addr_len_offset + 1, total);
        Ok(InteropAddress { version, chain_type, chain_ref, address })
    }

    /// Encode this interoperable address to raw bytes.
    ///
    /// Both variable fields must fit a one-byte length.
    pub fn encode(&self) -> (bytes: Vec<u8>)
        requires
            self@.encodable(),
        ensures
            bytes@ == self@.encoding(),
            bytes@.len() == 6 + self.chain_ref@.len() + self.address@.len(),
            bytes@[0] as int == self.version as int / 256,
            bytes@[1] as int == self.version as int % 256,
            bytes@[2] as int == self.chain_type as int / 256,
            bytes@[3] as int == self.chain_type as int % 256,
            bytes@[4] as int == self.chain_ref@.len(),
            bytes@.subrange(5, 5 + self.chain_ref@.len() as int) == self.chain_ref@,
            bytes@[5 + self.chain_ref@.len() as int] as int == self.address@.len(),
            bytes@.subrange(6 + self.chain_ref@.len() as int, bytes@.len() as int) == self.address@,
    {
        proof {
            lemma_encoding_layout(self@);
            assert(self@.encoding().subrange(6 + self.chain_ref@.len() as int, self@.encoding().len() as int)
                =~= self.address@);
        }
        let chain_ref_len = self.chain_ref.len();
        let addr_len = self.address.len();
        let mut buf: Vec<u8> = Vec::with_capacity(6 + chain_ref_len + addr_len);
        buf.push((self.version / 256) as u8);
        buf.push((self.version % 256) as u8);
        buf.push((self.chain_type / 256) as u8);
        buf.push((self.chain_type % 256) as u8);
        buf.push(chain_ref_len as u8);
        append_bytes(&mut buf, &self.chain_ref);
        buf.push(addr_len as u8);
        append_bytes(&mut buf, &self.address);
        buf
    }

    /// Create an EVM interoperable address for the given chain id and
    /// 20-byte address. The chain id is encoded as a minimal big-endian
    /// integer.
    pub fn evm(chain_id: u64, address: [u8; 20]) -> (ia: Self)
        ensures
            ia@ == evm_model(chain_id, address@),
            ia.version == VERSION_1,
            ia.chain_type == CHAIN_TYPE_EVM,
            be_value(ia.chain_ref@) == chain_id,
            1 <= ia.chain_ref@.len() <= 8,
            ia.chain_ref@.len() > 1 ==> ia.chain_ref@[0] != 0,
            ia.address@ == address@,
    {
        InteropAddress {
            version: VERSION_1,
            chain_type: CHAIN_TYPE_EVM,
            chain_ref: minimal_be_bytes(chain_id),
            address: array_to_vec(&address),
        }
    }

    /// Create an EVM interoperable address without a chain reference.
    pub fn evm_no_chain(address: [u8; 20]) -> (ia: Self)
        ensures
            ia@ == (InteropAddressModel {
                version: VERSION_1,
                chain_type: CHAIN_TYPE_EVM,
                chain_ref: Seq::<u8>::empty(),
                address: address@,
            }),
    {
        InteropAddress {
            version: VERSION_1,
            chain_type: CHAIN_TYPE_EVM,
            chain_ref: Vec::new(),
            address: array_to_vec(&address),
        }
    }

    /// Try to extract the EVM chain id from the chain reference: `None` if it
    /// is empty or longer than 8 bytes.
    pub fn evm_chain_id(&self) -> (id: Option<u64>)
        ensures
            id == self@.evm_chain_id(),
    {
        let n = self.chain_ref.len();
        if n == 0 || n > 8 {
            return None;
        }
        let mut v: u64 = 0;
        let mut i: usize = 0;
        while i < n
            invariant
                n == self.chain_ref@.len(),
                1 <= n <= 8,
                i <= n,
                v == be_value(self.chain_ref@.subrange(0, i as int)),
            decreases n - i,
        {
            let ghost prefix = self.chain_ref@.subrange(0, i as int);
            proof {
                lemma_be_value_bound(prefix);
                lemma_pow256_monotone((i + 1) as nat, 8);
                lemma_u64_below_pow256_8();
                assert(pow256((i + 1) as nat) == 256 * pow256(i as nat));
                let next = self.chain_ref@.subrange(0, i + 1);
                assert(next.drop_last() =~= prefix);
            }
            v = v * 256 + self.chain_ref[i] as u64;
            i = i + 1;
        }
        assert(self.chain_ref@.subrange(0, n as int) =~= self.chain_ref@);
        Some(v)
    }

    /// Try to extract the 20-byte EVM address: `None` unless the address has
    /// exactly 20 bytes.
    pub fn evm_address(&self) -> (a: Option<[u8; 20]>)
        ensures
            match a {
                Some(bytes) => self.address@.len() == 20 && bytes@ == self.address@,
                None => self.address@.len() != 20,
            },
    {
        if self.address.len() != 20 {
            return None;
        }
        let mut out: [u8; 20] = [0u8; 20];
        let mut i: usize = 0;
        while i < 20
            invariant
                self.address@.len() == 20,
                i <= 20,
                forall|j: int| 0 <= j < i ==> out@[j] == self.address@[j],
            decreases 20 - i,
        {
            out[i] = self.address[i];
            i = i + 1;
        }
        assert(out@ =~= self.address@);
        Some(out)
    }

    /// Decode an interoperable address from hex text, with or without a
    /// `0x` prefix.
    pub fn from_hex(s: &str) -> (res: Result<Self, Error>)
        ensures
            match res {
                Ok(ia) => from_hex_spec(vstd::utf8::encode_utf8(s@))
                    == Ok::<InteropAddressModel, Error>(ia@),
                Err(e) => from_hex_spec(vstd::utf8::encode_utf8(s@))
                    == Err::<InteropAddressModel, Error>(e),
            },
            match hex_decode_spec(vstd::utf8::encode_utf8(s@)) {
                Err(h) => res == Err::<Self, Error>(Error::Hex(h)),
                Ok(bytes) => match res {
                    Ok(ia) => decode_spec(bytes) == Ok::<InteropAddressModel, Error>(ia@),
                    Err(e) => decode_spec(bytes) == Err::<InteropAddressModel, Error>(e),
                },
            },
    {
        match hex_decode(s) {
            Err(e) => Err(Error::Hex(e)),
            Ok(bytes) => Self::decode(bytes.as_slice()),
        }
    }

    /// Format as lowercase hex text with a `0x` prefix.
    ///
    /// Both variable fields must fit a one-byte length.
    pub fn to_hex(&self) -> (text: String)
        requires
            self@.encodable(),
        ensures
            text@ == self@.hex(),
    {
        let bytes = self.encode();
        let digits = hex_encode(bytes.as_slice());
        let mut text = String::from_str("0x");
        proof {
            reveal_strlit("0x");
        }
        text.append(digits.as_str());
        text
    }

    /// The display form: the same text as [`InteropAddress::to_hex`].
    pub fn to_string(&self) -> (text: String)
        requires
            self@.encodable(),
        ensures
            text@ == self@.hex(),
    {
        self.to_hex()
    }

    /// The debug form, e.g.
    /// `InteropAddress { version: 0x0001, chain_type: 0x0000, chain_ref: "01", address: "8004…" }`.
    pub fn debug_text(&self) -> (text: String)
        ensures
            text@ == self@.debug_text(),
    {
        let mut text = String::from_str("InteropAddress { version: ");
        let version = u16_hex(self.version);
        text.append(version.as_str());
        text.append(", chain_type: ");
        let chain_type = u16_hex(self.chain_type);
        text.append(chain_type.as_str());
        text.append(", chain_ref: \"");
        let chain_ref = hex_encode(self.chain_ref.as_slice());
        text.append(chain_ref.as_str());
        text.append("\", address: \"");
        let address = hex_encode(self.address.as_slice());
        text.append(address.as_str());
        text.append("\" }");
        text
    }

    /// Returns `true` if this is an EVM-type address (chain type `0x0000`).
    pub fn is_evm(&self) -> (b: bool)
        ensures
            b == (self.chain_type == CHAIN_TYPE_EVM),
    {
        self.chain_type == CHAIN_TYPE_EVM
    }
}

impl core::str::FromStr for InteropAddress {
    type Err = Error;

    /// Parse hex text, exactly as [`InteropAddress::from_hex`].
    fn from_str(s: &str) -> (res: Result<Self, Error>)
        ensures
            match res {
                Ok(ia) => from_hex_spec(vstd::utf8::encode_utf8(s@))
                    == Ok::<InteropAddressModel, Error>(ia@),
                Err(e) => from_hex_spec(vstd::utf8::encode_utf8(s@))
                    == Err::<InteropAddressModel, Error>(e),
            },
    {
        Self::from_hex(s)
    }
}

/// The bytes of a 20-byte array, in order.
fn array_to_vec(a: &[u8; 20]) -> (v: Vec<u8>)
    ensures
        v@ == a@,
{
    let mut v: Vec<u8> = Vec::with_capacity(20);
    let mut i: usize = 0;
    while i < 20
        invariant
            i <= 20,
            v@ == a@.subrange(0, i as int),
        decreases 20 - i,
    {
        v.push(a[i]);
        i = i + 1;
        assert(v@ =~= a@.subrange(0, i as int));
    }
    assert(a@.subrange(0, 20) =~= a@);
    v
}

/// A fresh copy of `bytes[from..to]`.
fn copy_range(bytes: &[u8], from: usize, to: usize) -> (out: Vec<u8>)
    requires
        from <= to <= bytes@.len(),
    ensures
        out@ == bytes@.subrange(from as int, to as int),
{
    let mut out: Vec<u8> = Vec::with_capacity(to - from);
    let mut i: usize = from;
    while i < to
        invariant
            from <= i <= to <= bytes@.len(),
            out@ == bytes@.subrange(from as int, i as int),
        decreases to - i,
    {
        out.push(bytes[i]);
        i = i + 1;
        assert(out@ =~= bytes@.subrange(from as int, i as int));
    }
    out
}

/// Append all of `src` to `buf`.
fn append_bytes(buf: &mut Vec<u8>, src: &Vec<u8>)
    ensures
        final(buf)@ == old(buf)@ + src@,
{
    let mut i: usize = 0;
    while i < src.len()
        invariant
            i <= src@.len(),
            buf@ == old(buf)@ + src@.subrange(0, i as int),
        decreases src.len() - i,
    {
        buf.push(src[i]);
        i = i + 1;
        assert(buf@ =~= old(buf)@ + src@.subrange(0, i as int));
    }
    assert(src@.subrange(0, src@.len() as int) =~= src@);
}

} // verus!
