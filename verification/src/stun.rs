use vstd::prelude::*;
use crate::text::{decimal, dec_spec, string_of};

verus! {

/// An IPv4 address and port, as a STUN server reports the address it saw.
#[derive(Debug, Clone, Copy, PartialEq, Eq, Structural)]
pub struct MappedAddress {
    pub a: u8,
    pub b: u8,
    pub c: u8,
    pub d: u8,
    pub port: u16,
}

/// The transaction identifier of the binding request: the bytes 8 to 19.
pub open spec fn stun_transaction_id() -> Seq<u8> {
    Seq::new(12, |i: int| (i + 8) as u8)
}

/// The binding request: message type 0x0001, length 0, the magic cookie
/// 0x2112A442, then the transaction identifier.
pub open spec fn stun_request_spec() -> Seq<u8> {
    seq![0x00u8, 0x01u8, 0x00u8, 0x00u8, 0x21u8, 0x12u8, 0xA4u8, 0x42u8] + stun_transaction_id()
}

/// The 20-byte STUN binding request that the game sends.
pub fn stun_binding_request() -> (req: Vec<u8>)
    ensures
        req@ == stun_request_spec(),
{
    let mut req: Vec<u8> = vec![0x00, 0x01, 0x00, 0x00, 0x21, 0x12, 0xA4, 0x42];
    let mut i: u8 = 8;
    while i < 20
        invariant
            8 <= i <= 20,
            req@ == seq![0x00u8, 0x01u8, 0x00u8, 0x00u8, 0x21u8, 0x12u8, 0xA4u8, 0x42u8]
                + stun_transaction_id().take(i - 8),
        decreases 20 - i,
    {
        req.push(i);
        assert(stun_transaction_id().take(i + 1 - 8) == stun_transaction_id().take(i - 8).push(i));
        i = i + 1;
    }
    assert(stun_transaction_id().take(12) == stun_transaction_id());
    req
}

/// The big-endian 16-bit number at `r[i]`, `r[i + 1]`.
pub open spec fn be16(r: Seq<u8>, i: int) -> int {
    r[i] as int * 256 + r[i + 1] as int
}

/// An attribute length rounded up to the 4-byte boundary that attributes keep.
pub open spec fn padded(len: int) -> int {
    (len + 3) / 4 * 4
}

/// Rounding up to a 4-byte boundary adds less than 4.
pub proof fn lemma_padded(len: int)
    requires
        len >= 0,
    ensures
        len <= padded(len) < len + 4,
{
    assert(len <= (len + 3) / 4 * 4 < len + 4) by (nonlinear_arith)
        requires
            len >= 0,
    ;
}

/// The address of a MAPPED-ADDRESS value that starts at `o`.
pub open spec fn mapped_at(r: Seq<u8>, o: int) -> MappedAddress {
    MappedAddress { a: r[o + 4], b: r[o + 5], c: r[o + 6], d: r[o + 7], port: be16(r, o + 2) as u16 }
}

/// The address of an XOR-MAPPED-ADDRESS value that starts at `o`: port and
/// address are masked with the magic cookie.
pub open spec fn xor_mapped_at(r: Seq<u8>, o: int) -> MappedAddress {
    MappedAddress {
        a: r[o + 4] ^ 0x21u8,
        b: r[o + 5] ^ 0x12u8,
        c: r[o + 6] ^ 0xA4u8,
        d: r[o + 7] ^ 0x42u8,
        port: (be16(r, o + 2) as u16) ^ 0x2112u16,
    }
}

/// The first IPv4 address found among the attributes from `offset` on, within
/// the first `max_len` bytes: a MAPPED-ADDRESS (type 0x0001) or an
/// XOR-MAPPED-ADDRESS (type 0x0020) of at least 8 bytes and family 0x01. The
/// scan stops at an attribute that runs past `max_len`.
pub open spec fn scan_attributes(r: Seq<u8>, offset: int, max_len: int) -> Option<MappedAddress>
    decreases if offset <= max_len { max_len - offset } else { 0 },
{
    if offset < 0 || offset + 4 > max_len || max_len > r.len() {
        None
    } else {
        let kind = be16(r, offset);
        let len = be16(r, offset + 2);
        let o = offset + 4;
        if o + len > max_len {
            None
        } else if kind == 0x0001 && len >= 8 && r[o + 1] == 0x01 {
            Some(mapped_at(r, o))
        } else if kind == 0x0020 && len >= 8 && r[o + 1] == 0x01 {
            Some(xor_mapped_at(r, o))
        } else {
            proof {
                lemma_padded(len);
            }
            scan_attributes(r, o + padded(len), max_len)
        }
    }
}

/// The address that a binding response `r` reports: `r` has at least 20 bytes,
/// message type 0x0101 (binding success) and the request's transaction
/// identifier; its attributes are read up to the smaller of its length and
/// the message length in its header plus 20.
pub open spec fn parse_stun_spec(r: Seq<u8>) -> Option<MappedAddress> {
    if r.len() >= 20 && be16(r, 0) == 0x0101 && r.subrange(8, 20) == stun_transaction_id() {
        let msg_len = be16(r, 2) + 20;
        let max_len = if r.len() < msg_len { r.len() as int } else { msg_len };
        scan_attributes(r, 20, max_len)
    } else {
        None
    }
}

fn read_be16(r: &[u8], i: usize) -> (v: usize)
    requires
        i + 1 < r@.len(),
    ensures
        v == be16(r@, i as int),
{
    (r[i] as usize) * 256 + (r[i + 1] as usize)
}

/// Reads the address reported by a STUN binding response, the bytes received
/// from the server; `None` where the response is not a success response to
/// the game's request or reports no IPv4 address.
pub fn parse_stun_response(r: &[u8]) -> (addr: Option<MappedAddress>)
    ensures
        addr == parse_stun_spec(r@),
{
    let size = r.len();
    if size < 20 {
        return None;
    }
    if read_be16(r, 0) != 0x0101 {
        return None;
    }
    let mut k: usize = 8;
    while k < 20
        invariant
            8 <= k <= 20,
            size == r@.len(),
            size >= 20,
            forall|j: int| 8 <= j < k ==> r@[j] == (j as u8),
        decreases 20 - k,
    {
        if r[k] != (k as u8) {
            assert(r@.subrange(8, 20)[k - 8] != stun_transaction_id()[k - 8]);
            return None;
        }
        k = k + 1;
    }
    assert(r@.subrange(8, 20) =~= stun_transaction_id());
    let msg_len = read_be16(r, 2) + 20;
    let max_len = if size < msg_len { size } else { msg_len };
    let mut offset: usize = 20;
    while offset + 4 <= max_len
        invariant
            20 <= offset <= max_len + 3,
            max_len <= size,
            max_len <= 65555,
            size == r@.len(),
            parse_stun_spec(r@) == scan_attributes(r@, offset as int, max_len as int),
        decreases max_len + 4 - offset,
    {
        let kind = read_be16(r, offset);
        let len = read_be16(r, offset + 2);
        let o = offset + 4;
        if o + len > max_len {
            return None;
        }
        if kind == 0x0001 && len >= 8 && r[o + 1] == 0x01 {
            let port = read_be16(r, o + 2) as u16;
            return Some(MappedAddress { a: r[o + 4], b: r[o + 5], c: r[o + 6], d: r[o + 7], port });
        } else if kind == 0x0020 && len >= 8 && r[o + 1] == 0x01 {
            let port = (read_be16(r, o + 2) as u16) ^ 0x2112u16;
            return Some(
                MappedAddress {
                    a: r[o + 4] ^ 0x21u8,
                    b: r[o + 5] ^ 0x12u8,
                    c: r[o + 6] ^ 0xA4u8,
                    d: r[o + 7] ^ 0x42u8,
                    port,
                },
            );
        }
        proof {
            lemma_padded(len as int);
        }
        offset = o + (len + 3) / 4 * 4;
    }
    None
}

/// `a.b.c.d:port`, as a socket address is written.
pub open spec fn address_text_spec(m: MappedAddress) -> Seq<char> {
    dec_spec(m.a as nat) + "."@ + dec_spec(m.b as nat) + "."@ + dec_spec(m.c as nat) + "."@
        + dec_spec(m.d as nat) + ":"@ + dec_spec(m.port as nat)
}

impl MappedAddress {
    /// The address written as `a.b.c.d:port`.
    pub fn text(&self) -> (s: String)
        ensures
            s@ == address_text_spec(*self),
    {
        let mut s = decimal(self.a as u32);
        s.append(".");
        s.append(decimal(self.b as u32).as_str());
        s.append(".");
        s.append(decimal(self.c as u32).as_str());
        s.append(".");
        s.append(decimal(self.d as u32).as_str());
        s.append(":");
        s.append(decimal(self.port as u32).as_str());
        s
    }
}


/// The header of a binding success response to the game's request, announcing
/// `body_len` bytes of attributes.
pub open spec fn success_header(body_len: u8) -> Seq<u8> {
    seq![0x01u8, 0x01u8, 0x00u8, body_len, 0x21u8, 0x12u8, 0xA4u8, 0x42u8] + stun_transaction_id()
}

/// A binding success response whose only attribute is an XOR-MAPPED-ADDRESS
/// carrying `m`, as a STUN server writes it.
pub open spec fn xor_mapped_response(m: MappedAddress) -> Seq<u8> {
    let xp = m.port ^ 0x2112u16;
    success_header(12) + seq![
        0x00u8, 0x20u8, 0x00u8, 0x08u8,
        0x00u8, 0x01u8, (xp / 256) as u8, (xp % 256) as u8,
        m.a ^ 0x21u8, m.b ^ 0x12u8, m.c ^ 0xA4u8, m.d ^ 0x42u8,
    ]
}

/// A binding success response whose only attribute is a MAPPED-ADDRESS
/// carrying `m`.
pub open spec fn mapped_response(m: MappedAddress) -> Seq<u8> {
    success_header(12) + seq![
        0x00u8, 0x01u8, 0x00u8, 0x08u8,
        0x00u8, 0x01u8, (m.port / 256) as u8, (m.port % 256) as u8,
        m.a, m.b, m.c, m.d,
    ]
}

/// The response of a server that reports the address `m` in an
/// XOR-MAPPED-ADDRESS attribute is read back as `m`: masking with the magic
/// cookie is undone.
pub proof fn lemma_xor_mapped_roundtrip(m: MappedAddress)
    ensures
        parse_stun_spec(xor_mapped_response(m)) == Some(m),
{
    let r = xor_mapped_response(m);
    let xp = m.port ^ 0x2112u16;
    assert(r.subrange(8, 20) =~= stun_transaction_id());
    assert(((xp / 256) as u8) as int * 256 + ((xp % 256) as u8) as int == xp as int);
    assert(be16(r, 26) == xp as int);
    let (a, b, c, d, p) = (m.a, m.b, m.c, m.d, m.port);
    assert((a ^ 0x21u8) ^ 0x21u8 == a) by (bit_vector);
    assert((b ^ 0x12u8) ^ 0x12u8 == b) by (bit_vector);
    assert((c ^ 0xA4u8) ^ 0xA4u8 == c) by (bit_vector);
    assert((d ^ 0x42u8) ^ 0x42u8 == d) by (bit_vector);
    assert((p ^ 0x2112u16) ^ 0x2112u16 == p) by (bit_vector);
    lemma_padded(8);
    assert(scan_attributes(r, 20, 32) == Some(xor_mapped_at(r, 24)));
}

/// The response of a server that reports `m` in a plain MAPPED-ADDRESS
/// attribute is read back as `m`.
pub proof fn lemma_mapped_roundtrip(m: MappedAddress)
    ensures
        parse_stun_spec(mapped_response(m)) == Some(m),
{
    let r = mapped_response(m);
    assert(r.subrange(8, 20) =~= stun_transaction_id());
    assert(((m.port / 256) as u8) as int * 256 + ((m.port % 256) as u8) as int == m.port as int);
    assert(scan_attributes(r, 20, 32) == Some(mapped_at(r, 24)));
}

/// A response that does not echo the transaction identifier of the request is
/// never read.
pub proof fn lemma_foreign_transaction_ignored(r: Seq<u8>)
    requires
        r.len() >= 20,
        r.subrange(8, 20) != stun_request_spec().subrange(8, 20),
    ensures
        parse_stun_spec(r) is None,
{
    assert(stun_request_spec().subrange(8, 20) =~= stun_transaction_id());
}

} // verus!
