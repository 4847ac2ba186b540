//! The fixed-size header at the start of every `.tssm` file.
//!
//! Layout (24 bytes, `repr(C)`, multi-byte fields little-endian):
//! magic `"TSSM"` (4 bytes), then the `u32` fields version, vocab size,
//! layers, hidden dim and state dim.
use vstd::prelude::*;

verus! {

/// Number of bytes the header occupies at the start of a file.
pub const HEADER_SIZE: usize = 24;

/// Simple TSSM Header
/// Magic: "TSSM" (4 bytes)
/// Version: u32
/// Vocab Size: u32
/// Layers: u32
/// Hidden Dim: u32
/// State Dim: u32
#[derive(Debug, Clone, Copy)]
pub struct TssmHeader {
    pub magic: [u8; 4],
    pub version: u32,
    pub vocab_size: u32,
    pub layers: u32,
    pub hidden_dim: u32,
    pub state_dim: u32,
}

/// The four magic bytes `"TSSM"`.
pub open spec fn spec_magic() -> Seq<u8> {
    seq![0x54u8, 0x53u8, 0x53u8, 0x4du8]
}

/// The magic bytes `"TSSM"` as an array.
pub fn magic() -> (m: [u8; 4])
    ensures
        m@ == spec_magic(),
{
    let m: [u8; 4] = [0x54u8, 0x53u8, 0x53u8, 0x4du8];
    assert(m@ =~= spec_magic());
    m
}

/// The value of the little-endian `u32` stored in `b[at..at + 4]`.
pub open spec fn le_u32_at(b: Seq<u8>, at: int) -> int {
    b[at] + 256 * b[at + 1] + 65536 * b[at + 2] + 16777216 * b[at + 3]
}

/// The four little-endian bytes of `v`.
pub open spec fn le_u32_bytes(v: u32) -> Seq<u8> {
    seq![
        (v % 256) as u8,
        ((v / 256) % 256) as u8,
        ((v / 65536) % 256) as u8,
        (v / 16777216) as u8,
    ]
}

/// `h` is the header that the first `HEADER_SIZE` bytes of `b` hold.
pub open spec fn header_matches(h: TssmHeader, b: Seq<u8>) -> bool {
    &&& b.len() >= HEADER_SIZE
    &&& h.magic@ == b.subrange(0, 4)
    &&& h.version == le_u32_at(b, 4)
    &&& h.vocab_size == le_u32_at(b, 8)
    &&& h.layers == le_u32_at(b, 12)
    &&& h.hidden_dim == le_u32_at(b, 16)
    &&& h.state_dim == le_u32_at(b, 20)
}

/// The bytes that represent `h` in a file.
pub open spec fn header_bytes(h: TssmHeader) -> Seq<u8> {
    h.magic@ + le_u32_bytes(h.version) + le_u32_bytes(h.vocab_size) + le_u32_bytes(h.layers)
        + le_u32_bytes(h.hidden_dim) + le_u32_bytes(h.state_dim)
}

/// The `u32` that the four bytes `b[at..at + 4]` hold, least significant first.
pub fn read_le_u32(b: &[u8], at: usize) -> (v: u32)
    requires
        at + 4 <= b@.len(),
    ensures
        v == le_u32_at(b@, at as int),
{
    let b0 = b[at] as u32;
    let b1 = b[at + 1] as u32;
    let b2 = b[at + 2] as u32;
    let b3 = b[at + 3] as u32;
    b0 + 256 * b1 + 65536 * b2 + 16777216 * b3
}

/// Appends the four little-endian bytes of `v` to `out`.
pub fn push_le_u32(out: &mut Vec<u8>, v: u32)
    ensures
        final(out)@ == old(out)@ + le_u32_bytes(v),
{
    out.push((v % 256) as u8);
    out.push(((v / 256) % 256) as u8);
    out.push(((v / 65536) % 256) as u8);
    out.push((v / 16777216) as u8);
    assert(final(out)@ =~= old(out)@ + le_u32_bytes(v));
}

/// Reading back the bytes of `v` gives `v`.
pub proof fn lemma_le_u32_roundtrip(v: u32, pre: Seq<u8>, post: Seq<u8>)
    ensures
        le_u32_at(pre + le_u32_bytes(v) + post, pre.len() as int) == v,
{
    let b = pre + le_u32_bytes(v) + post;
    let at = pre.len() as int;
    assert(b[at] == (v % 256) as u8);
    assert(b[at + 1] == ((v / 256) % 256) as u8);
    assert(b[at + 2] == ((v / 65536) % 256) as u8);
    assert(b[at + 3] == (v / 16777216) as u8);
    assert(v % 256 + 256 * ((v / 256) % 256) + 65536 * ((v / 65536) % 256) + 16777216 * (v
        / 16777216) == v) by (nonlinear_arith);
}

/// Reads the header stored at the start of `b`.
pub fn decode_header(b: &[u8]) -> (h: TssmHeader)
    requires
        b@.len() >= HEADER_SIZE,
    ensures
        header_matches(h, b@),
{
    let m: [u8; 4] = [b[0], b[1], b[2], b[3]];
    assert(m@ =~= b@.subrange(0, 4));
    TssmHeader {
        magic: m,
        version: read_le_u32(b, 4),
        vocab_size: read_le_u32(b, 8),
        layers: read_le_u32(b, 12),
        hidden_dim: read_le_u32(b, 16),
        state_dim: read_le_u32(b, 20),
    }
}

/// The bytes that represent `h` at the start of a file.
pub fn encode_header(h: &TssmHeader) -> (b: Vec<u8>)
    ensures
        b@ == header_bytes(*h),
        b@.len() == HEADER_SIZE,
{
    let mut b: Vec<u8> = Vec::new();
    b.push(h.magic[0]);
    b.push(h.magic[1]);
    b.push(h.magic[2]);
    b.push(h.magic[3]);
    assert(b@ =~= h.magic@);
    push_le_u32(&mut b, h.version);
    push_le_u32(&mut b, h.vocab_size);
    push_le_u32(&mut b, h.layers);
    push_le_u32(&mut b, h.hidden_dim);
    push_le_u32(&mut b, h.state_dim);
    b
}

/// Writing a header and reading it back, with anything after it, gives the
/// same header.
pub proof fn lemma_header_roundtrip(h: TssmHeader, rest: Seq<u8>)
    ensures
        header_matches(h, header_bytes(h) + rest),
{
    let m = h.magic@;
    let v = le_u32_bytes(h.version);
    let c = le_u32_bytes(h.vocab_size);
    let l = le_u32_bytes(h.layers);
    let d = le_u32_bytes(h.hidden_dim);
    let s = le_u32_bytes(h.state_dim);
    let b = header_bytes(h) + rest;
    assert(b =~= m + v + (c + l + d + s + rest));
    lemma_le_u32_roundtrip(h.version, m, c + l + d + s + rest);
    assert(b =~= (m + v) + c + (l + d + s + rest));
    lemma_le_u32_roundtrip(h.vocab_size, m + v, l + d + s + rest);
    assert(b =~= (m + v + c) + l + (d + s + rest));
    lemma_le_u32_roundtrip(h.layers, m + v + c, d + s + rest);
    assert(b =~= (m + v + c + l) + d + (s + rest));
    lemma_le_u32_roundtrip(h.hidden_dim, m + v + c + l, s + rest);
    assert(b =~= (m + v + c + l + d) + s + rest);
    lemma_le_u32_roundtrip(h.state_dim, m + v + c + l + d, rest);
    assert(b.subrange(0, 4) =~= m);
}

/// The bytes determine the header: two headers that both match the same
/// bytes are equal.
pub proof fn lemma_header_unique(h1: TssmHeader, h2: TssmHeader, b: Seq<u8>)
    requires
        header_matches(h1, b),
        header_matches(h2, b),
    ensures
        h1 == h2,
{
    broadcast use vstd::array::axiom_array_ext_equal;

    assert(h1.magic =~= h2.magic);
}

/// A header written in front of any bytes is read back unchanged: the bytes
/// start with a header that matches exactly `h`, and the magic check sees
/// `h.magic`.
pub proof fn lemma_written_header_reads_back(h: TssmHeader, rest: Seq<u8>)
    ensures
        header_matches(h, header_bytes(h) + rest),
        (header_bytes(h) + rest).len() >= HEADER_SIZE,
        (header_bytes(h) + rest).subrange(0, 4) == h.magic@,
        forall|h2: TssmHeader| header_matches(h2, header_bytes(h) + rest) ==> h2 == h,
{
    lemma_header_roundtrip(h, rest);
    assert forall|h2: TssmHeader| header_matches(h2, header_bytes(h) + rest) implies h2 == h by {
        lemma_header_unique(h, h2, header_bytes(h) + rest);
    }
}

/// The magic bytes are the ASCII letters `T`, `S`, `S`, `M`.
pub proof fn lemma_magic_is_tssm()
    ensures
        spec_magic().len() == 4,
        spec_magic()[0] == 'T' as u8,
        spec_magic()[1] == 'S' as u8,
        spec_magic()[2] == 'S' as u8,
        spec_magic()[3] == 'M' as u8,
{
}

/// The header is laid out in `repr(C)` field order, each `u32` least
/// significant byte first: magic in bytes 0..4, version at 4, vocabulary size
/// at 8, layers at 12, hidden dim at 16, state dim at 20. Whatever header
/// matches a run of bytes holds exactly these values.
pub proof fn lemma_header_field_offsets(h: TssmHeader, b: Seq<u8>)
    requires
        header_matches(h, b),
    ensures
        b.len() >= 24,
        h.magic[0] == b[0] && h.magic[1] == b[1] && h.magic[2] == b[2] && h.magic[3] == b[3],
        h.version == b[4] + 256 * b[5] + 65536 * b[6] + 16777216 * b[7],
        h.vocab_size == b[8] + 256 * b[9] + 65536 * b[10] + 16777216 * b[11],
        h.layers == b[12] + 256 * b[13] + 65536 * b[14] + 16777216 * b[15],
        h.hidden_dim == b[16] + 256 * b[17] + 65536 * b[18] + 16777216 * b[19],
        h.state_dim == b[20] + 256 * b[21] + 65536 * b[22] + 16777216 * b[23],
{
    assert(h.magic@[0] == b.subrange(0, 4)[0]);
    assert(h.magic@[1] == b.subrange(0, 4)[1]);
    assert(h.magic@[2] == b.subrange(0, 4)[2]);
    assert(h.magic@[3] == b.subrange(0, 4)[3]);
}

/// Writing a header puts each field where `repr(C)` puts it, least
/// significant byte first: 24 bytes, magic in 0..4, then version, vocabulary
/// size, layers, hidden dim and state dim at 4, 8, 12, 16 and 20.
pub proof fn lemma_header_bytes_layout(h: TssmHeader)
    ensures
        HEADER_SIZE == 24,
        header_bytes(h).len() == 24,
        forall|i: int| 0 <= i < 4 ==> header_bytes(h)[i] == h.magic[i],
        forall|i: int|
            0 <= i < 4 ==> {
                &&& #[trigger] header_bytes(h)[4 + i] == (h.version as int / pow256(i)) % 256
                &&& header_bytes(h)[8 + i] == (h.vocab_size as int / pow256(i)) % 256
                &&& header_bytes(h)[12 + i] == (h.layers as int / pow256(i)) % 256
                &&& header_bytes(h)[16 + i] == (h.hidden_dim as int / pow256(i)) % 256
                &&& header_bytes(h)[20 + i] == (h.state_dim as int / pow256(i)) % 256
            },
{
    let b = header_bytes(h);
    assert forall|i: int| 0 <= i < 4 implies {
        &&& #[trigger] b[4 + i] == (h.version as int / pow256(i)) % 256
        &&& b[8 + i] == (h.vocab_size as int / pow256(i)) % 256
        &&& b[12 + i] == (h.layers as int / pow256(i)) % 256
        &&& b[16 + i] == (h.hidden_dim as int / pow256(i)) % 256
        &&& b[20 + i] == (h.state_dim as int / pow256(i)) % 256
    } by {
        lemma_le_byte(h.version, i);
        lemma_le_byte(h.vocab_size, i);
        lemma_le_byte(h.layers, i);
        lemma_le_byte(h.hidden_dim, i);
        lemma_le_byte(h.state_dim, i);
    }
}

/// `256` to the power `i`, for the byte positions of a `u32`.
pub open spec fn pow256(i: int) -> int {
    if i == 0 {
        1
    } else if i == 1 {
        256
    } else if i == 2 {
        65536
    } else {
        16777216
    }
}

/// Byte `i` of the little-endian bytes of `v` is `(v / 256^i) % 256`.
proof fn lemma_le_byte(v: u32, i: int)
    requires
        0 <= i < 4,
    ensures
        le_u32_bytes(v)[i] == (v as int / pow256(i)) % 256,
{
    assert(v / 16777216 < 256) by (nonlinear_arith);
}

/// The header of the model that is generated where none is found.
pub open spec fn spec_dummy_header() -> TssmHeader {
    TssmHeader {
        magic: [0x54u8, 0x53u8, 0x53u8, 0x4du8],
        version: 1,
        vocab_size: 32000,
        layers: 12,
        hidden_dim: 768,
        state_dim: 128,
    }
}

/// The header of the model that is generated where none is found:
/// version 1, vocabulary 32000, 12 layers, hidden dim 768, state dim 128.
pub fn dummy_header() -> (h: TssmHeader)
    ensures
        h == spec_dummy_header(),
        h.magic@ == spec_magic(),
{
    let h = TssmHeader {
        magic: magic(),
        version: 1,
        vocab_size: 32000,
        layers: 12,
        hidden_dim: 768,
        state_dim: 128,
    };
    proof {
        broadcast use vstd::array::axiom_array_ext_equal;

        assert(h.magic =~= spec_dummy_header().magic);
    }
    h
}

} // verus!
