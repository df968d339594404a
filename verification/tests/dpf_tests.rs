use aes::cipher::generic_array::GenericArray;
use dpf::DPF;
use dpf::codec::BLOCK_LEN;
use dpf::codec::Block;
use dpf::codec::bitmul;
use dpf::codec::combine_s_t;
use dpf::codec::parse_s_t;
use dpf::codec::xor_in_memory;
use dpf::errors::DpfError;
use dpf::prg::gen_key;

#[test]
fn test_block_size() {
    assert_eq!(BLOCK_LEN, 16);
    let a: Block = [0; BLOCK_LEN];
    let b = GenericArray::from(a);
    assert_eq!(a.len(), b.as_slice().len());
}

#[test]
fn test_gen_key() {
    let k0 = gen_key().unwrap();
    let k1 = gen_key().unwrap();
    assert_ne!(k0, k1);
    assert_eq!(k0[BLOCK_LEN - 1] >> 7, 0);
    assert_eq!(k1[BLOCK_LEN - 1] >> 7, 0);
}

#[test]
fn test_parse_s_t() {
    let b = gen_key().unwrap();
    let (b_out, t_out) = parse_s_t(b);
    assert!(t_out == 0 || t_out == 1);
    assert_eq!(combine_s_t(b_out, t_out), b);
}

#[test]
fn test_bitmul() {
    let b = gen_key().unwrap();
    assert_eq!(bitmul(0, &b), [0u8; BLOCK_LEN]);
    assert_eq!(bitmul(1, &b), b);
}

#[test]
fn test_dpf_gen_3() {
    let dpf = DPF::new();
    let true_alpha = vec![false, false, false];
    let (k0, k1, cw) = dpf.gen(&true_alpha).unwrap();
    assert_eq!(cw.len(), true_alpha.len());
    {
        let out0 = dpf.eval(0, &k0, &cw, &true_alpha).unwrap();
        let out1 = dpf.eval(1, &k1, &cw, &true_alpha).unwrap();
        assert_eq!(1, out0 ^ out1);
    }
    {
        let alpha = vec![true, false, false];
        let out0 = dpf.eval(0, &k0, &cw, &alpha).unwrap();
        let out1 = dpf.eval(1, &k1, &cw, &alpha).unwrap();
        assert_eq!(0, out0 ^ out1);
    }
    {
        let alpha = vec![true, true, false];
        let out0 = dpf.eval(0, &k0, &cw, &alpha).unwrap();
        let out1 = dpf.eval(1, &k1, &cw, &alpha).unwrap();
        assert_eq!(0, out0 ^ out1);
    }
    {
        let alpha = vec![true, true, true];
        let out0 = dpf.eval(0, &k0, &cw, &alpha).unwrap();
        let out1 = dpf.eval(1, &k1, &cw, &alpha).unwrap();
        assert_eq!(0, out0 ^ out1);
    }
}

#[test]
fn test_prg_deterministic() {
    let dpf = DPF::new();
    let seed = gen_key().unwrap();
    let (l_first, r_first) = dpf.prg(&seed);
    let (l_second, r_second) = dpf.prg(&seed);
    assert_eq!(l_first, l_second);
    assert_eq!(r_first, r_second);
}

#[test]
fn test_prg_output_differs_from_trivial() {
    // A fixed-key AES application feeds the seed forward, so the PRG of the
    // all-zero seed must not collapse to the all-zero block, and the two
    // fixed keys must give two different halves.
    let dpf = DPF::new();
    let seed: Block = [0u8; BLOCK_LEN];
    let (l, r) = dpf.prg(&seed);
    assert_ne!(l, [0u8; BLOCK_LEN]);
    assert_ne!(r, [0u8; BLOCK_LEN]);
    assert_ne!(l, r);
}

#[test]
fn test_codec_roundtrip_fixed_values() {
    let mut s: Block = [0x11u8; BLOCK_LEN];
    s[BLOCK_LEN - 1] = 0x55;
    for t in [0u8, 1u8] {
        let combined = combine_s_t(s, t);
        let (s_back, t_back) = parse_s_t(combined);
        assert_eq!(s_back, s);
        assert_eq!(t_back, t);
    }
}

#[test]
fn test_select_fixed_values() {
    let b: Block = [0xabu8; BLOCK_LEN];
    assert_eq!(bitmul(0, &b), [0u8; BLOCK_LEN]);
    assert_eq!(bitmul(1, &b), b);
}

#[test]
fn test_xor_in_memory_fixed_values() {
    let mut out: Block = [0b1100u8; BLOCK_LEN];
    let input: Block = [0b1010u8; BLOCK_LEN];
    xor_in_memory(&mut out, &input);
    assert_eq!(out, [0b0110u8; BLOCK_LEN]);
}

#[test]
fn test_depth_zero() {
    let dpf = DPF::new();
    let (k0, k1, cw) = dpf.gen(&vec![]).unwrap();
    assert!(cw.is_empty());
    assert_eq!(dpf.eval(0, &k0, &cw, &vec![]), Ok(0));
    assert_eq!(dpf.eval(1, &k1, &cw, &vec![]), Ok(1));
}

#[test]
fn test_mismatched_lengths() {
    let dpf = DPF::new();
    let (k0, _k1, cw) = dpf.gen(&vec![true, false, true]).unwrap();
    let shorter = vec![true, false];
    let longer = vec![true, false, true, true];
    assert_eq!(dpf.eval(0, &k0, &cw, &shorter), Err(DpfError::InvalidInput));
    assert_eq!(dpf.eval(1, &k0, &cw, &longer), Err(DpfError::InvalidInput));
    let empty_cw: Vec<dpf::CorrectionWord> = Vec::new();
    assert_eq!(dpf.eval(0, &k0, &empty_cw, &shorter), Err(DpfError::InvalidInput));
}

#[test]
fn test_depth_two_exhaustive() {
    let dpf = DPF::new();
    let alpha = vec![true, false];
    let (k0, k1, cw) = dpf.gen(&alpha).unwrap();
    assert_eq!(cw.len(), 2);
    for first in [false, true] {
        for second in [false, true] {
            let x = vec![first, second];
            let out0 = dpf.eval(0, &k0, &cw, &x).unwrap();
            let out1 = dpf.eval(1, &k1, &cw, &x).unwrap();
            let expected = if x == alpha { 1 } else { 0 };
            assert_eq!(expected, out0 ^ out1);
        }
    }
}
