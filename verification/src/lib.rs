//! A two-party distributed point function (DPF) over a GGM-style binary tree.
//!
//! A dealer splits a secret tree path into two compact keys, one per party.
//! Each party evaluates its key on any query path of the same depth and gets a
//! one-bit share; the two shares XOR to 1 exactly on the secret path and to 0
//! everywhere else. Seeds expand level by level through a fixed-key
//! block-cipher PRG, and public per-level correction words keep the two
//! parties' walks reconciled.
use vstd::prelude::*;

pub mod codec;
pub mod correctness;
pub mod errors;
pub mod model;
pub mod prg;

verus! {

use crate::codec::BLOCK_LEN;
use crate::codec::Block;
use crate::codec::bitmul;
use crate::codec::combine_s_t;
use crate::codec::is_seed;
use crate::codec::bit_and;
use crate::codec::select_of;
use crate::codec::lemma_bit_mul;
use crate::codec::lemma_bit_xor_bounds;
use crate::codec::lemma_xor_seed;
use crate::codec::lemma_xor_zero;
use crate::codec::lemma_split_selected;
use crate::codec::parse_s_t;
use crate::codec::xor_in_memory;
use crate::errors::DpfError;
use crate::model::CwModel;
use crate::model::cw_of;
use crate::model::cw_seq;
use crate::model::cw_wf;
use crate::model::eval_node;
use crate::model::eval_out;
use crate::model::gen_level;
use crate::model::gen_node_step;
use crate::model::node_step;
use crate::prg::aes128_encrypt;
use crate::prg::fixed_key0;
use crate::prg::fixed_key1;
use crate::prg::gen_key;
use crate::prg::prg_left;
use crate::prg::prg_right;

/// The public per-level correction word: a seed correction and one control
/// correction per branch.
#[derive(Clone, Copy, Debug)]
pub struct CorrectionWord {
    pub s: Block,
    pub t_l: u8,
    pub t_r: u8,
}

impl View for CorrectionWord {
    type V = CwModel;

    open spec fn view(&self) -> CwModel {
        CwModel { s: self.s@, tl: self.t_l, tr: self.t_r }
    }
}

/// The models of a sequence of correction words.
pub open spec fn cw_views(s: Seq<CorrectionWord>) -> Seq<CwModel> {
    s.map_values(|c: CorrectionWord| c@)
}

/// The two fixed-key cipher instances the PRG is built from, as the pair of
/// fixed public keys.
pub struct DPF {
    key0: Block,
    key1: Block,
}

impl DPF {
    /// The instance holds the two conventional fixed keys: all-zero and
    /// all-one.
    pub closed spec fn wf(&self) -> bool {
        self.key0@ == fixed_key0() && self.key1@ == fixed_key1()
    }

    /// Set up the PRG's two fixed-key cipher instances.
    pub fn new() -> (d: DPF)
        ensures
            d.wf(),
    {
        let d = DPF { key0: [0u8; BLOCK_LEN], key1: [1u8; BLOCK_LEN] };
        proof {
            assert(d.key0@ =~= fixed_key0());
            assert(d.key1@ =~= fixed_key1());
        }
        d
    }

    /// Expand one seed into the two child blocks. The output is a function of
    /// the seed alone: two calls on the same seed return the same pair.
    pub fn prg(&self, seed: &Block) -> (r: (Block, Block))
        requires
            self.wf(),
            is_seed(seed@),
        ensures
            r.0@ == prg_left(seed@),
            r.1@ == prg_right(seed@),
    {
        let mut out0 = aes128_encrypt(&self.key0, seed);
        let mut out1 = aes128_encrypt(&self.key1, seed);
        xor_in_memory(&mut out0, seed);
        xor_in_memory(&mut out1, seed);
        (out0, out1)
    }

    /// Dealer-side key generation. Walks the conceptual tree of depth
    /// `a.len()` along the secret path `a`, and returns the two parties' root
    /// seeds together with the public correction words, one per level. Given
    /// the two returned roots, the correction words are exactly the modelled
    /// dealer walk; only an entropy failure is reported as an error.
    pub fn gen(&self, a: &Vec<bool>) -> (r: Result<(Block, Block, Vec<CorrectionWord>), DpfError>)
        requires
            self.wf(),
        ensures
            (r matches Ok(out) ==> is_seed(out.0@) && is_seed(out.1@)),
            (r matches Ok(out) ==> out.2@.len() == a@.len()),
            (r matches Ok(out) ==> cw_views(out.2@) == cw_seq(out.0@, out.1@, a@)),
            (r matches Ok(out) ==> forall|i: int|
                0 <= i < a@.len() ==> cw_wf(#[trigger] out.2@[i]@)),
            (r matches Err(e) ==> e == DpfError::EntropyFailure),
    {
        let n = a.len();
        let root0 = match gen_key() {
            Ok(b) => b,
            Err(e) => {
                return Err(e);
            },
        };
        let root1 = match gen_key() {
            Ok(b) => b,
            Err(e) => {
                return Err(e);
            },
        };
        let mut s0 = root0;
        let mut t0: u8 = 0;
        let mut s1 = root1;
        let mut t1: u8 = 1;
        let mut cw: Vec<CorrectionWord> = Vec::new();
        let mut i: usize = 0;
        while i < n
            invariant
                self.wf(),
                i <= n,
                n == a@.len(),
                is_seed(root0@),
                is_seed(root1@),
                is_seed(s0@),
                is_seed(s1@),
                t0 <= 1,
                t1 <= 1,
                s0@ == gen_level(root0@, root1@, a@, i as int).n0.s,
                t0 == gen_level(root0@, root1@, a@, i as int).n0.t,
                s1@ == gen_level(root0@, root1@, a@, i as int).n1.s,
                t1 == gen_level(root0@, root1@, a@, i as int).n1.t,
                cw@.len() == i,
                forall|j: int| 0 <= j < i ==> #[trigger] cw@[j]@ == cw_seq(root0@, root1@, a@)[j],
                forall|j: int| 0 <= j < i ==> cw_wf(#[trigger] cw@[j]@),
            decreases n - i,
        {
            let ghost prev = gen_level(root0@, root1@, a@, i as int);
            let (raw_l0, raw_r0) = self.prg(&s0);
            let (s_l0, t_l0) = parse_s_t(raw_l0);
            let (s_r0, t_r0) = parse_s_t(raw_r0);
            let (raw_l1, raw_r1) = self.prg(&s1);
            let (s_l1, t_l1) = parse_s_t(raw_l1);
            let (s_r1, t_r1) = parse_s_t(raw_r1);
            let ai: u8 = if a[i] {
                1
            } else {
                0
            };
            if a[i] == false {
                // Keep is the left branch, lose is the right branch.
                let mut s_cw = s_r0;
                xor_in_memory(&mut s_cw, &s_r1);
                let t_l_cw = t_l0 ^ t_l1 ^ ai ^ 1;
                let t_r_cw = t_r0 ^ t_r1 ^ ai;
                proof {
                    lemma_bit_xor_bounds(t_l0, t_l1, ai, 1);
                    lemma_bit_xor_bounds(t_r0, t_r1, ai, 0);
                    lemma_xor_seed(s_r0@, s_r1@);
                    assert(cw_of(prev, a@[i as int]) == (CwModel {
                        s: s_cw@,
                        tl: t_l_cw,
                        tr: t_r_cw,
                    }));
                }
                cw.push(CorrectionWord { s: s_cw, t_l: t_l_cw, t_r: t_r_cw });
                proof {
                    lemma_xor_zero(s_cw@);
                    lemma_split_selected(t0, s_cw@, t_l_cw);
                    lemma_split_selected(t1, s_cw@, t_l_cw);
                    lemma_xor_seed(s_l0@, select_of(t0, s_cw@));
                    lemma_xor_seed(s_l1@, select_of(t1, s_cw@));
                    lemma_bit_mul(t0, t_l_cw);
                    lemma_bit_mul(t1, t_l_cw);
                    lemma_bit_xor_bounds(t_l0, bit_and(t0, t_l_cw), 0, 0);
                    lemma_bit_xor_bounds(t_l1, bit_and(t1, t_l_cw), 0, 0);
                }
                let corr0 = bitmul(t0, &s_cw);
                let corr1 = bitmul(t1, &s_cw);
                let mut ns0 = s_l0;
                xor_in_memory(&mut ns0, &corr0);
                let mut ns1 = s_l1;
                xor_in_memory(&mut ns1, &corr1);
                let nt0 = t_l0 ^ t0 * t_l_cw;
                let nt1 = t_l1 ^ t1 * t_l_cw;
                s0 = ns0;
                t0 = nt0;
                s1 = ns1;
                t1 = nt1;
                proof {
                    let next = gen_level(root0@, root1@, a@, i as int + 1);
                    assert(next.n0 == gen_node_step(prev.n0, cw_of(prev, a@[i as int]), false));
                    assert(next.n0.s == s0@ && next.n0.t == t0);
                    assert(next.n1.s == s1@ && next.n1.t == t1);
                }
            } else {
                // Keep is the right branch, lose is the left branch.
                let mut s_cw = s_l0;
                xor_in_memory(&mut s_cw, &s_l1);
                let t_l_cw = t_l0 ^ t_l1 ^ ai ^ 1;
                let t_r_cw = t_r0 ^ t_r1 ^ ai;
                proof {
                    lemma_bit_xor_bounds(t_l0, t_l1, ai, 1);
                    lemma_bit_xor_bounds(t_r0, t_r1, ai, 0);
                    lemma_xor_seed(s_l0@, s_l1@);
                    assert(cw_of(prev, a@[i as int]) == (CwModel {
                        s: s_cw@,
                        tl: t_l_cw,
                        tr: t_r_cw,
                    }));
                }
                cw.push(CorrectionWord { s: s_cw, t_l: t_l_cw, t_r: t_r_cw });
                proof {
                    lemma_xor_zero(s_cw@);
                    lemma_split_selected(t0, s_cw@, t_r_cw);
                    lemma_split_selected(t1, s_cw@, t_r_cw);
                    lemma_xor_seed(s_r0@, select_of(t0, s_cw@));
                    lemma_xor_seed(s_r1@, select_of(t1, s_cw@));
                    lemma_bit_mul(t0, t_r_cw);
                    lemma_bit_mul(t1, t_r_cw);
                    lemma_bit_xor_bounds(t_r0, bit_and(t0, t_r_cw), 0, 0);
                    lemma_bit_xor_bounds(t_r1, bit_and(t1, t_r_cw), 0, 0);
                }
                let corr0 = bitmul(t0, &s_cw);
                let corr1 = bitmul(t1, &s_cw);
                let mut ns0 = s_r0;
                xor_in_memory(&mut ns0, &corr0);
                let mut ns1 = s_r1;
                xor_in_memory(&mut ns1, &corr1);
                let nt0 = t_r0 ^ t0 * t_r_cw;
                let nt1 = t_r1 ^ t1 * t_r_cw;
                s0 = ns0;
                t0 = nt0;
                s1 = ns1;
                t1 = nt1;
                proof {
                    let next = gen_level(root0@, root1@, a@, i as int + 1);
                    assert(next.n0 == gen_node_step(prev.n0, cw_of(prev, a@[i as int]), true));
                    assert(next.n0.s == s0@ && next.n0.t == t0);
                    assert(next.n1.s == s1@ && next.n1.t == t1);
                }
            }
            i = i + 1;
        }
        proof {
            assert(cw_views(cw@) =~= cw_seq(root0@, root1@, a@));
        }
        Ok((root0, root1, cw))
    }

    /// Party-side evaluation. Walks the tree of depth `cw.len()` along the
    /// query path `x` using this party's root seed `k` and identity bit `b`,
    /// and returns this party's one-bit share. A query path whose length does
    /// not match the correction-word sequence is rejected.
    pub fn eval(&self, b: u8, k: &Block, cw: &Vec<CorrectionWord>, x: &Vec<bool>) -> (r: Result<
        u8,
        DpfError,
    >)
        requires
            self.wf(),
            b <= 1,
            is_seed(k@),
            forall|i: int| 0 <= i < cw@.len() ==> cw_wf(#[trigger] cw@[i]@),
        ensures
            (x@.len() == cw@.len() ==> r == Ok::<u8, DpfError>(
                eval_out(b, k@, cw_views(cw@), x@),
            )),
            (x@.len() != cw@.len() ==> r == Err::<u8, DpfError>(DpfError::InvalidInput)),
    {
        if x.len() != cw.len() {
            return Err(DpfError::InvalidInput);
        }
        let n = cw.len();
        let mut s = *k;
        let mut t = b;
        let mut i: usize = 0;
        while i < n
            invariant
                self.wf(),
                i <= n,
                n == cw@.len(),
                n == x@.len(),
                is_seed(k@),
                b <= 1,
                forall|j: int| 0 <= j < cw@.len() ==> cw_wf(#[trigger] cw@[j]@),
                is_seed(s@),
                t <= 1,
                s@ == eval_node(b, k@, cw_views(cw@), x@, i as int).s,
                t == eval_node(b, k@, cw_views(cw@), x@, i as int).t,
            decreases n - i,
        {
            let ghost prev = eval_node(b, k@, cw_views(cw@), x@, i as int);
            let c = cw[i];
            proof {
                assert(cw_wf(cw@[i as int]@));
            }
            let (mut tau_l, mut tau_r) = self.prg(&s);
            let corr_l = bitmul(t, &combine_s_t(c.s, c.t_l));
            let corr_r = bitmul(t, &combine_s_t(c.s, c.t_r));
            xor_in_memory(&mut tau_l, &corr_l);
            xor_in_memory(&mut tau_r, &corr_r);
            let (s_l, t_l) = parse_s_t(tau_l);
            let (s_r, t_r) = parse_s_t(tau_r);
            if x[i] == false {
                s = s_l;
                t = t_l;
            } else {
                s = s_r;
                t = t_r;
            }
            proof {
                let next = eval_node(b, k@, cw_views(cw@), x@, i as int + 1);
                assert(next == node_step(prev, cw_views(cw@)[i as int], x@[i as int]));
                assert(next.s == s@ && next.t == t);
            }
            i = i + 1;
        }
        Ok(t)
    }
}

} // verus!
