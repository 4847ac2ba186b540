//! A loaded `.tssm` model: its header and its bit-packed ternary weights.
//!
//! Each weight takes 2 bits; a byte holds four weights, the first in its two
//! lowest bits. A layer is a `hidden_dim x hidden_dim` matrix stored row by
//! row, and layer `l` starts `l * (hidden_dim * hidden_dim / 4)` bytes after
//! the header.
use vstd::prelude::*;
use crate::header::{
    decode_header, dummy_header, encode_header, header_bytes, header_matches,
    lemma_written_header_reads_back, magic, spec_dummy_header, spec_magic, TssmHeader,
    HEADER_SIZE,
};

verus! {

/// Why the bytes of a file are not a model.
#[derive(Debug, Clone, Copy, PartialEq, Eq, Structural)]
pub enum LoadError {
    /// File too small for TSSM header.
    TooSmall,
    /// Invalid magic number.
    InvalidMagic,
}

/// One ternary weight: `+1`, `-1` or `0`.
#[derive(Debug, Clone, Copy, PartialEq, Eq, Structural)]
pub enum Ternary {
    Plus,
    Minus,
    Zero,
}

/// The weight that a 2-bit code stands for: `0b01` is `+1`, `0b10` is `-1`,
/// `0b00` and `0b11` are `0`.
pub open spec fn spec_ternary_of_code(code: u8) -> Ternary {
    if code == 1 {
        Ternary::Plus
    } else if code == 2 {
        Ternary::Minus
    } else {
        Ternary::Zero
    }
}

/// The 2-bit code of weight number `k` in the packed bytes `w`.
pub open spec fn weight_code(w: Seq<u8>, k: int) -> u8 {
    (w[k / 4] >> ((k % 4) * 2) as u8) & 3u8
}

/// Weight number `k` of the packed bytes `w`.
pub open spec fn weight_at(w: Seq<u8>, k: int) -> Ternary {
    spec_ternary_of_code(weight_code(w, k))
}

/// Bytes one layer of a `dim x dim` matrix occupies (2 bits per weight).
pub open spec fn layer_size(dim: nat) -> nat {
    dim * dim / 4
}

/// Offset of layer `layer` within the weight bytes.
pub open spec fn layer_offset(dim: nat, layer: nat) -> nat {
    layer * layer_size(dim)
}

/// Layer `layer` lies wholly within `weights_len` bytes of weights.
pub open spec fn layer_in_range(weights_len: nat, dim: nat, layer: nat) -> bool {
    layer_offset(dim, layer) + layer_size(dim) <= weights_len
}

/// The `dim * dim` weights of layer `layer` in row-major order, or only
/// zeros where the layer lies beyond the end of the weights.
pub open spec fn layer_weights(w: Seq<u8>, dim: nat, layer: nat) -> Seq<Ternary> {
    Seq::new(
        dim * dim,
        |k: int|
            if layer_in_range(w.len(), dim, layer) {
                weight_at(
                    w.subrange(
                        layer_offset(dim, layer) as int,
                        (layer_offset(dim, layer) + layer_size(dim)) as int,
                    ),
                    k,
                )
            } else {
                Ternary::Zero
            },
    )
}

/// `n` zero weights.
pub open spec fn zero_weights(n: nat) -> Seq<Ternary> {
    Seq::new(n, |k: int| Ternary::Zero)
}

/// The weight that a 2-bit code stands for.
pub fn ternary_of_code(code: u8) -> (t: Ternary)
    ensures
        t == spec_ternary_of_code(code),
{
    if code == 1 {
        Ternary::Plus
    } else if code == 2 {
        Ternary::Minus
    } else {
        Ternary::Zero
    }
}

/// Unpacks the weight number `k` from the packed bytes `w`.
pub fn unpack_weight(w: &[u8], k: usize) -> (t: Ternary)
    requires
        k / 4 < w@.len(),
    ensures
        t == weight_at(w@, k as int),
{
    let byte_idx = k / 4;
    let bit_idx = ((k % 4) * 2) as u8;
    let bits = (w[byte_idx] >> bit_idx) & 0b11u8;
    ternary_of_code(bits)
}

/// A model: the header and all bytes of the file it was loaded from.
pub struct TssmModel {
    pub header: TssmHeader,
    pub data: Vec<u8>,
}

impl TssmModel {
    /// All bytes of the file, header included.
    pub open spec fn file_bytes(&self) -> Seq<u8> {
        self.data@
    }

    /// The file is long enough to hold a header.
    pub open spec fn wf(&self) -> bool {
        self.file_bytes().len() >= HEADER_SIZE
    }

    /// The weight bytes: everything after the header.
    pub open spec fn weight_bytes(&self) -> Seq<u8> {
        self.file_bytes().skip(HEADER_SIZE as int)
    }

    /// Builds a model from the bytes of a `.tssm` file.
    ///
    /// Fails with `TooSmall` when the bytes cannot hold a header, and with
    /// `InvalidMagic` when they do but do not start with `"TSSM"`.
    pub fn load(data: Vec<u8>) -> (r: Result<TssmModel, LoadError>)
        ensures
            match r {
                Ok(m) => {
                    &&& data@.len() >= HEADER_SIZE
                    &&& data@.subrange(0, 4) == spec_magic()
                    &&& m.wf()
                    &&& m.file_bytes() == data@
                    &&& header_matches(m.header, data@)
                },
                Err(LoadError::TooSmall) => data@.len() < HEADER_SIZE,
                Err(LoadError::InvalidMagic) => {
                    &&& data@.len() >= HEADER_SIZE
                    &&& data@.subrange(0, 4) != spec_magic()
                },
            },
    {
        if data.len() < HEADER_SIZE {
            return Err(LoadError::TooSmall);
        }
        let header = decode_header(data.as_slice());
        let m = magic();
        if header.magic[0] != m[0] || header.magic[1] != m[1] || header.magic[2] != m[2]
            || header.magic[3] != m[3] {
            proof {
                if data@.subrange(0, 4) == spec_magic() {
                    assert(header.magic@[0] == m@[0]);
                    assert(header.magic@[1] == m@[1]);
                    assert(header.magic@[2] == m@[2]);
                    assert(header.magic@[3] == m@[3]);
                }
            }
            return Err(LoadError::InvalidMagic);
        }
        assert(header.magic@ =~= m@);
        Ok(TssmModel { header, data })
    }

    /// The weight bytes: everything after the header.
    pub fn get_weights(&self) -> (w: &[u8])
        requires
            self.wf(),
        ensures
            w@ == self.weight_bytes(),
    {
        let all = self.data.as_slice();
        let w = vstd::slice::slice_subrange(all, HEADER_SIZE, all.len());
        assert(w@ =~= self.weight_bytes());
        w
    }

    /// The ternary weights of layer `layer_idx`, row-major: entry
    /// `i * hidden_dim + j` is the weight from input `j` to output `i`.
    /// A layer that does not lie wholly within the file has only zero
    /// weights.
    pub fn layer_matrix(&self, layer_idx: usize) -> (m: Vec<Ternary>)
        requires
            self.wf(),
            self.header.hidden_dim * self.header.hidden_dim <= usize::MAX,
            layer_offset(self.header.hidden_dim as nat, layer_idx as nat) + layer_size(
                self.header.hidden_dim as nat,
            ) <= usize::MAX,
            layer_in_range(
                self.weight_bytes().len(),
                self.header.hidden_dim as nat,
                layer_idx as nat,
            ) ==> (self.header.hidden_dim * self.header.hidden_dim) % 4 == 0,
        ensures
            m@ == layer_weights(
                self.weight_bytes(),
                self.header.hidden_dim as nat,
                layer_idx as nat,
            ),
    {
        let dim = self.header.hidden_dim as usize;
        let n = dim * dim;
        let size = n / 4;
        assert(layer_idx * size <= layer_idx * size + size);
        let offset = layer_idx * size;
        let weights = self.get_weights();
        let ghost spec_w = layer_weights(self.weight_bytes(), dim as nat, layer_idx as nat);
        let mut m: Vec<Ternary> = Vec::new();
        if offset + size > weights.len() {
            for k in 0..n
                invariant
                    n == dim * dim,
                    spec_w == layer_weights(weights@, dim as nat, layer_idx as nat),
                    spec_w.len() == n,
                    !layer_in_range(weights@.len(), dim as nat, layer_idx as nat),
                    weights@ == self.weight_bytes(),
                    m@ =~= spec_w.take(k as int),
            {
                m.push(Ternary::Zero);
                assert(m@ =~= spec_w.take(k + 1));
            }
        } else {
            let layer = vstd::slice::slice_subrange(weights, offset, offset + size);
            for k in 0..n
                invariant
                    n == dim * dim,
                    n % 4 == 0,
                    size == n / 4,
                    size == layer_size(dim as nat),
                    spec_w == layer_weights(weights@, dim as nat, layer_idx as nat),
                    spec_w.len() == n,
                    layer_in_range(weights@.len(), dim as nat, layer_idx as nat),
                    weights@ == self.weight_bytes(),
                    offset == layer_offset(dim as nat, layer_idx as nat),
                    layer@ == weights@.subrange(offset as int, offset + size),
                    m@ =~= spec_w.take(k as int),
            {
                assert(k / 4 < size);
                let t = unpack_weight(layer, k);
                assert(t == spec_w[k as int]);
                m.push(t);
                assert(m@ =~= spec_w.take(k + 1));
            }
        }
        assert(m@ =~= spec_w);
        m
    }

    /// Decoding layer `layer_idx` stays within the machine's integers and
    /// within the weights: the conditions under which `layer_matrix` runs.
    pub open spec fn layer_decodable(&self, layer_idx: nat) -> bool {
        let dim = self.header.hidden_dim as nat;
        &&& dim * dim <= usize::MAX
        &&& layer_offset(dim, layer_idx) + layer_size(dim) <= usize::MAX
        &&& layer_in_range(self.weight_bytes().len(), dim, layer_idx) ==> (dim * dim) % 4 == 0
    }

    /// The weights of layer `layer_idx` as `layer_matrix` gives them, or
    /// `None` exactly where decoding that layer would overflow the
    /// machine's integers or read past the layer's bytes (a `hidden_dim`
    /// whose square is not a multiple of 4).
    pub fn try_layer_matrix(&self, layer_idx: usize) -> (r: Option<Vec<Ternary>>)
        requires
            self.wf(),
        ensures
            match r {
                Some(m) => self.layer_decodable(layer_idx as nat) && m@ == layer_weights(
                    self.weight_bytes(),
                    self.header.hidden_dim as nat,
                    layer_idx as nat,
                ),
                None => !self.layer_decodable(layer_idx as nat),
            },
    {
        let dim = self.header.hidden_dim as usize;
        let n = match dim.checked_mul(dim) {
            Some(n) => n,
            None => return None,
        };
        let size = n / 4;
        let offset = match layer_idx.checked_mul(size) {
            Some(o) => o,
            None => {
                assert(layer_idx * size <= layer_idx * size + size);
                return None;
            },
        };
        let end = match offset.checked_add(size) {
            Some(e) => e,
            None => return None,
        };
        let weights_len = self.data.len() - HEADER_SIZE;
        if end <= weights_len && n % 4 != 0 {
            return None;
        }
        Some(self.layer_matrix(layer_idx))
    }
}

/// A layer can be decoded exactly where running it cannot fail: `d * d`
/// and the end `l * (d * d / 4) + d * d / 4` of its bytes fit in a `usize`,
/// and, where those bytes lie within the weights, every one of the `d * d`
/// weights lies within them (`d * d` is a multiple of 4). In particular a
/// layer past the end of the weights is always decodable when these
/// numbers fit.
pub proof fn lemma_decodable_exactly(m: TssmModel, l: nat)
    ensures
        m.layer_decodable(l) <==> ({
            let d = m.header.hidden_dim as nat;
            &&& d * d <= usize::MAX
            &&& l * (d * d / 4) + d * d / 4 <= usize::MAX
            &&& l * (d * d / 4) + d * d / 4 <= m.weight_bytes().len() ==> (d * d) % 4 == 0
        }),
{
}

/// The weights are the bytes of the file after its 24 header bytes, in
/// order.
pub proof fn lemma_weights_follow_header(m: TssmModel)
    requires
        m.wf(),
    ensures
        m.weight_bytes().len() + 24 == m.file_bytes().len(),
        forall|i: int| 0 <= i < m.weight_bytes().len() ==> #[trigger] m.weight_bytes()[i] == m.file_bytes()[24 + i],
{
}

/// Bytes of weights a model with header `h` has: `layers` matrices of
/// `hidden_dim x hidden_dim` weights, 2 bits each.
pub open spec fn weight_bytes_len(h: TssmHeader) -> nat {
    (h.layers * h.hidden_dim * h.hidden_dim / 4) as nat
}

/// The file that is generated where no model is found: the dummy header
/// followed by all-zero weights.
pub open spec fn spec_dummy_tssm_bytes() -> Seq<u8> {
    header_bytes(spec_dummy_header()) + Seq::new(
        weight_bytes_len(spec_dummy_header()),
        |i: int| 0u8,
    )
}

/// The weight bytes of the dummy model file.
pub open spec fn spec_dummy_weights() -> Seq<u8> {
    spec_dummy_tssm_bytes().skip(HEADER_SIZE as int)
}

/// Generates the bytes of the dummy model file that is written where no
/// model is found: the dummy header, then as many zero bytes as its
/// weights take.
pub fn generate_dummy_tssm() -> (b: Vec<u8>)
    ensures
        b@ == spec_dummy_tssm_bytes(),
{
    let header = dummy_header();
    let mut b = encode_header(&header);
    let weight_size = (header.layers * header.hidden_dim * header.hidden_dim) / 4;
    let n = weight_size as usize;
    let ghost zeros = Seq::new(weight_bytes_len(spec_dummy_header()), |i: int| 0u8);
    for i in 0..n
        invariant
            n == zeros.len(),
            zeros == Seq::new(weight_bytes_len(spec_dummy_header()), |i: int| 0u8),
            b@ =~= header_bytes(spec_dummy_header()) + zeros.take(i as int),
    {
        b.push(0u8);
        assert(b@ =~= header_bytes(spec_dummy_header()) + zeros.take(i + 1));
    }
    assert(zeros.take(n as int) =~= zeros);
    b
}

/// The generated dummy model loads: its bytes hold a header with the right
/// magic, that header is the dummy header, and each layer `l` of its
/// layers lies within the file and holds only zero weights.
pub proof fn lemma_dummy_model_loads(l: nat)
    requires
        l < spec_dummy_header().layers,
    ensures
        spec_dummy_tssm_bytes().len() == 24 + 12 * 768 * 768 / 4,
        spec_dummy_header().version == 1 && spec_dummy_header().vocab_size == 32000
            && spec_dummy_header().layers == 12 && spec_dummy_header().hidden_dim == 768
            && spec_dummy_header().state_dim == 128,
        spec_dummy_tssm_bytes().len() >= HEADER_SIZE,
        spec_dummy_tssm_bytes().subrange(0, 4) == spec_magic(),
        header_matches(spec_dummy_header(), spec_dummy_tssm_bytes()),
        forall|h: TssmHeader| header_matches(h, spec_dummy_tssm_bytes()) ==> h == spec_dummy_header(),
        layer_in_range(spec_dummy_weights().len(), 768, l),
        layer_weights(spec_dummy_weights(), 768, l) == zero_weights(768 * 768),
{
    let h = spec_dummy_header();
    let zeros = Seq::new(weight_bytes_len(h), |i: int| 0u8);
    lemma_written_header_reads_back(h, zeros);
    assert(h.magic@ =~= spec_magic());
    let w = spec_dummy_weights();
    assert(w =~= zeros);
    assert(768 * 768 == 589824nat) by (nonlinear_arith);
    assert(589824nat / 4 == 147456nat);
    assert(layer_size(768) == 147456);
    assert(h.layers == 12 && h.hidden_dim == 768);
    assert(h.layers * h.hidden_dim * h.hidden_dim == 7077888) by (nonlinear_arith)
        requires
            h.layers == 12 && h.hidden_dim == 768,
    ;
    assert(weight_bytes_len(h) == 1769472);
    assert(weight_bytes_len(h) == 12 * layer_size(768));
    assert(l * layer_size(768) + layer_size(768) <= 12 * layer_size(768)) by (nonlinear_arith)
        requires
            l < 12,
    ;
    let sub = w.subrange(layer_offset(768, l) as int, (layer_offset(768, l) + layer_size(768)) as int);
    assert forall|k: int| 0 <= k < 768 * 768 implies weight_at(sub, k) == Ternary::Zero by {
        assert(sub[k / 4] == 0u8);
        assert(forall|s: u8| (0u8 >> s) & 3u8 == 0u8) by (bit_vector);
    }
    assert(layer_weights(w, 768, l) =~= zero_weights(768 * 768));
}

/// Entry `k` of the matrix decoded for layer `l` of `dim x dim` weights:
/// where the layer's `dim * dim / 4` bytes lie within the weights `w`, its
/// 2-bit code is in weight byte `l * (dim * dim / 4) + k / 4`, at bits
/// `2 * (k % 4)` and `2 * (k % 4) + 1`, and code 1 is `+1`, code 2 is `-1`,
/// codes 0 and 3 are `0`; where they do not, the entry is `0`. This holds
/// for every layer, not only the first.
pub proof fn lemma_layer_entry(w: Seq<u8>, dim: nat, l: nat, k: int)
    requires
        0 <= k < dim * dim,
    ensures
        layer_weights(w, dim, l).len() == dim * dim,
        l * (dim * dim / 4) + dim * dim / 4 <= w.len() && k / 4 < dim * dim / 4 ==> {
            let code = (w[l * (dim * dim / 4) + k / 4] >> (2 * (k % 4)) as u8) & 3u8;
            &&& (layer_weights(w, dim, l)[k] == Ternary::Plus <==> code == 1)
            &&& (layer_weights(w, dim, l)[k] == Ternary::Minus <==> code == 2)
            &&& (layer_weights(w, dim, l)[k] == Ternary::Zero <==> (code == 0 || code == 3))
        },
        l * (dim * dim / 4) + dim * dim / 4 > w.len() ==> layer_weights(w, dim, l)[k]
            == Ternary::Zero,
{
    let size = dim * dim / 4;
    let off = l * size;
    if off + size <= w.len() && k / 4 < size {
        let sub = w.subrange(off as int, (off + size) as int);
        assert(sub[k / 4] == w[off + k / 4]);
        assert((k % 4) * 2 == 2 * (k % 4));
        let byte = w[off + k / 4];
        let sh = (2 * (k % 4)) as u8;
        assert((byte >> sh) & 3u8 < 4u8) by (bit_vector);
    }
}

/// Decoding layer `l` of the weights is decoding the first layer of the
/// weights that start at layer `l`'s offset `l * (dim * dim / 4)`: layers
/// are laid out one after the other, each `dim * dim / 4` bytes long.
pub proof fn lemma_layer_is_first_layer_at_offset(w: Seq<u8>, dim: nat, l: nat)
    requires
        l * (dim * dim / 4) <= w.len(),
    ensures
        layer_weights(w, dim, l) == layer_weights(w.skip((l * (dim * dim / 4)) as int), dim, 0),
{
    let size = dim * dim / 4;
    let off = l * size;
    let v = w.skip(off as int);
    assert(0 * size == 0);
    if off + size <= w.len() {
        assert(v.subrange(0, size as int) =~= w.subrange(off as int, (off + size) as int));
    }
    assert(layer_weights(w, dim, l) =~= layer_weights(v, dim, 0));
}

} // verus!
