use octopus::header::{decode_header, encode_header, dummy_header, TssmHeader, HEADER_SIZE};
use octopus::model::{generate_dummy_tssm, LoadError, Ternary, TssmModel};

fn header(hidden_dim: u32) -> TssmHeader {
    TssmHeader {
        magic: *b"TSSM",
        version: 1,
        vocab_size: 10,
        layers: 1,
        hidden_dim,
        state_dim: 2,
    }
}

fn model_bytes(h: &TssmHeader, weights: &[u8]) -> Vec<u8> {
    let mut b = encode_header(h);
    b.extend_from_slice(weights);
    b
}

/// One ternary layer applied to `input`, accumulated in the order the
/// model runs it.
fn forward(model: &TssmModel, input: &[f32], layer: usize) -> Vec<f32> {
    let dim = model.header.hidden_dim as usize;
    let m = model.try_layer_matrix(layer).expect("decodable layer");
    let mut out = vec![0.0f32; dim];
    for i in 0..dim {
        let mut sum = 0.0f32;
        for j in 0..dim {
            match m[i * dim + j] {
                Ternary::Plus => sum += input[j],
                Ternary::Minus => sum -= input[j],
                Ternary::Zero => {}
            }
        }
        out[i] = sum;
    }
    out
}

#[test]
fn test_ternary_forward() {
    // Row 0: [1, 0, 0, 0] -> 0b00000001
    // Row 1: [0, 1, 0, 0] -> 0b00000100
    // Row 2: [0, 0,-1, 0] -> 0b00100000
    // Row 3: [0, 0, 0, 1] -> 0b01000000
    let weights = vec![0b00000001u8, 0b00000100, 0b00100000, 0b01000000];
    let model = TssmModel::load(model_bytes(&header(4), &weights)).unwrap();
    let input = vec![1.0f32, 2.0, 3.0, 4.0];
    let output = forward(&model, &input, 0);
    assert_eq!(output, vec![1.0, 2.0, -3.0, 4.0]);
}

#[test]
fn test_ssm_step() {
    // Identity weights for 2x2: 0b01000001
    let weights = vec![0b01000001u8];
    let model = TssmModel::load(model_bytes(&header(2), &weights)).unwrap();
    let mut hidden_state = vec![0.0f32; model.header.hidden_dim as usize];
    let mut x = vec![1.0f32, 2.0];
    for i in 0..model.header.layers as usize {
        let projected = forward(&model, &x, i);
        for (h, p) in hidden_state.iter_mut().zip(projected.iter()) {
            *h = *h * 0.9 + *p;
        }
        x = projected;
    }
    assert_eq!(x, vec![1.0, 2.0]);
    assert_eq!(hidden_state, vec![1.0, 2.0]);
}

#[test]
fn layer_matrix_decodes_rows_in_order() {
    let weights = vec![0b00000001u8, 0b00000100, 0b00100000, 0b01000000];
    let model = TssmModel::load(model_bytes(&header(4), &weights)).unwrap();
    let m = model.layer_matrix(0);
    let (p, m0, z) = (Ternary::Plus, Ternary::Minus, Ternary::Zero);
    assert_eq!(m, vec![p, z, z, z, z, p, z, z, z, z, m0, z, z, z, z, p]);
}

#[test]
fn code_three_is_zero_weight() {
    // 0b11 in every slot: all four weights are zero.
    let model = TssmModel::load(model_bytes(&header(2), &[0b11111111u8])).unwrap();
    assert_eq!(model.layer_matrix(0), vec![Ternary::Zero; 4]);
    let model = TssmModel::load(model_bytes(&header(2), &[0b10011001u8])).unwrap();
    assert_eq!(
        model.layer_matrix(0),
        vec![Ternary::Plus, Ternary::Minus, Ternary::Plus, Ternary::Minus]
    );
}

#[test]
fn layer_beyond_file_is_zero() {
    let model = TssmModel::load(model_bytes(&header(2), &[0b01000001u8])).unwrap();
    assert_eq!(model.layer_matrix(1), vec![Ternary::Zero; 4]);
    assert_eq!(model.try_layer_matrix(5), Some(vec![Ternary::Zero; 4]));
}

#[test]
fn odd_dim_layer_in_range_is_not_decodable() {
    // dim 3: a layer takes 9 / 4 = 2 bytes but its ninth weight lies in a third.
    let model = TssmModel::load(model_bytes(&header(3), &[0u8, 0, 0])).unwrap();
    assert_eq!(model.try_layer_matrix(0), None);
    // Out of range, the layer is all zeros and nothing is read.
    assert_eq!(model.try_layer_matrix(2), Some(vec![Ternary::Zero; 9]));
}

#[test]
fn huge_layer_index_is_not_decodable() {
    let model = TssmModel::load(model_bytes(&header(4), &[0u8; 4])).unwrap();
    assert_eq!(model.try_layer_matrix(usize::MAX), None);
}

#[test]
fn load_rejects_short_file() {
    let bytes = encode_header(&header(4));
    let short = bytes[..HEADER_SIZE - 1].to_vec();
    assert!(matches!(TssmModel::load(short), Err(LoadError::TooSmall)));
    assert!(matches!(TssmModel::load(Vec::new()), Err(LoadError::TooSmall)));
}

#[test]
fn load_rejects_wrong_magic() {
    let mut h = header(4);
    h.magic = *b"TSSN";
    assert!(matches!(TssmModel::load(encode_header(&h)), Err(LoadError::InvalidMagic)));
}

#[test]
fn load_accepts_bare_header() {
    let model = TssmModel::load(encode_header(&header(4))).unwrap();
    assert!(model.get_weights().is_empty());
    assert_eq!(model.header.hidden_dim, 4);
}

#[test]
fn header_bytes_are_little_endian() {
    let h = TssmHeader {
        magic: *b"TSSM",
        version: 0x0403_0201,
        vocab_size: 32000,
        layers: 12,
        hidden_dim: 768,
        state_dim: 128,
    };
    let b = encode_header(&h);
    assert_eq!(b.len(), HEADER_SIZE);
    assert_eq!(&b[0..4], b"TSSM");
    assert_eq!(&b[4..8], &[1, 2, 3, 4]);
    assert_eq!(&b[8..12], &32000u32.to_le_bytes());
    assert_eq!(&b[16..20], &[0x00, 0x03, 0, 0]);
}

#[test]
fn header_roundtrip() {
    let h = TssmHeader {
        magic: *b"TSSM",
        version: u32::MAX,
        vocab_size: 7,
        layers: 0,
        hidden_dim: 123456789,
        state_dim: 1,
    };
    let mut b = encode_header(&h);
    b.extend_from_slice(&[9, 9, 9]);
    let d = decode_header(&b);
    assert_eq!(d.magic, h.magic);
    assert_eq!(d.version, h.version);
    assert_eq!(d.vocab_size, h.vocab_size);
    assert_eq!(d.layers, h.layers);
    assert_eq!(d.hidden_dim, h.hidden_dim);
    assert_eq!(d.state_dim, h.state_dim);
    let model = TssmModel::load(b).unwrap();
    assert_eq!(model.get_weights(), &[9, 9, 9]);
    assert_eq!(model.header.version, u32::MAX);
}

#[test]
fn get_weights_skips_header() {
    let model = TssmModel::load(model_bytes(&header(2), &[5, 6, 7])).unwrap();
    assert_eq!(model.get_weights(), &[5, 6, 7]);
    assert_eq!(model.data.len(), HEADER_SIZE + 3);
}

#[test]
fn dummy_model_loads_with_zero_layers() {
    let bytes = generate_dummy_tssm();
    assert_eq!(bytes.len(), HEADER_SIZE + 12 * 768 * 768 / 4);
    let model = TssmModel::load(bytes).unwrap();
    let h = dummy_header();
    assert_eq!(model.header.magic, *b"TSSM");
    assert_eq!(model.header.version, h.version);
    assert_eq!(model.header.vocab_size, 32000);
    assert_eq!(model.header.layers, 12);
    assert_eq!(model.header.hidden_dim, 768);
    assert_eq!(model.header.state_dim, 128);
    assert_eq!(model.get_weights().len(), 1769472);
    let last = model.try_layer_matrix(11).unwrap();
    assert_eq!(last.len(), 768 * 768);
    assert!(last.iter().all(|t| *t == Ternary::Zero));
}
