//! The mathematical model of the tree walk: per-party nodes, correction
//! words, and the level-indexed states that `gen` and `eval` compute.
use vstd::prelude::*;

use crate::codec::bit_and;
use crate::codec::bit_of;
use crate::codec::block_xor;
use crate::codec::combine_of;
use crate::codec::is_seed;
use crate::codec::mask_of;
use crate::codec::msb_of;
use crate::codec::select_of;
use crate::prg::prg_left;
use crate::prg::prg_right;

verus! {

/// One party's state at one tree level: its seed and its control bit.
#[verifier::ext_equal]
pub ghost struct Node {
    pub s: Seq<u8>,
    pub t: u8,
}

/// Both parties' states at one tree level, as the dealer tracks them.
#[verifier::ext_equal]
pub ghost struct LevelState {
    pub n0: Node,
    pub n1: Node,
}

/// A correction word: the seed correction and the two control corrections.
#[verifier::ext_equal]
pub ghost struct CwModel {
    pub s: Seq<u8>,
    pub tl: u8,
    pub tr: u8,
}

/// A correction word is well formed when its seed part is masked and its
/// control parts are bits.
pub open spec fn cw_wf(c: CwModel) -> bool {
    is_seed(c.s) && c.tl <= 1 && c.tr <= 1
}

/// The correction word the dealer emits at a level, given both parties'
/// states there and the secret path bit of that level. The seed correction is
/// the XOR of the two parties' lose-branch seed halves; the control
/// corrections force the lose branch into agreement and keep the keep branch
/// apart.
pub open spec fn cw_of(l: LevelState, a: bool) -> CwModel {
    let l0 = prg_left(l.n0.s);
    let r0 = prg_right(l.n0.s);
    let l1 = prg_left(l.n1.s);
    let r1 = prg_right(l.n1.s);
    CwModel {
        s: if a {
            block_xor(mask_of(l0), mask_of(l1))
        } else {
            block_xor(mask_of(r0), mask_of(r1))
        },
        tl: msb_of(l0) ^ msb_of(l1) ^ bit_of(a) ^ 1,
        tr: msb_of(r0) ^ msb_of(r1) ^ bit_of(a),
    }
}

/// How the dealer advances one party's node along the keep branch `a`: the
/// own keep-branch seed half, with the seed correction applied when the own
/// control bit is set; likewise for the control bit.
pub open spec fn gen_node_step(n: Node, c: CwModel, a: bool) -> Node {
    let raw = if a {
        prg_right(n.s)
    } else {
        prg_left(n.s)
    };
    let tcw = if a {
        c.tr
    } else {
        c.tl
    };
    Node { s: block_xor(mask_of(raw), select_of(n.t, c.s)), t: msb_of(raw) ^ bit_and(n.t, tcw) }
}

/// Both parties' states after `i` levels of the dealer's walk, from the two
/// root seeds down along the secret path. Level 0 holds the roots with the
/// two fixed, distinct initial control bits.
pub open spec fn gen_level(r0: Seq<u8>, r1: Seq<u8>, alpha: Seq<bool>, i: int) -> LevelState
    decreases i,
{
    if i <= 0 {
        LevelState { n0: Node { s: r0, t: 0 }, n1: Node { s: r1, t: 1 } }
    } else {
        let prev = gen_level(r0, r1, alpha, i - 1);
        let c = cw_of(prev, alpha[i - 1]);
        LevelState {
            n0: gen_node_step(prev.n0, c, alpha[i - 1]),
            n1: gen_node_step(prev.n1, c, alpha[i - 1]),
        }
    }
}

/// The full correction-word sequence the dealer emits for a secret path.
pub open spec fn cw_seq(r0: Seq<u8>, r1: Seq<u8>, alpha: Seq<bool>) -> Seq<CwModel> {
    Seq::new(alpha.len(), |i: int| cw_of(gen_level(r0, r1, alpha, i), alpha[i]))
}

/// How a party advances its node along direction `dir` at a level: expand the
/// seed, XOR in the recombined correction when the control bit is set, and
/// split the chosen half.
pub open spec fn node_step(n: Node, c: CwModel, dir: bool) -> Node {
    let raw = if dir {
        prg_right(n.s)
    } else {
        prg_left(n.s)
    };
    let tcw = if dir {
        c.tr
    } else {
        c.tl
    };
    let corrected = block_xor(raw, select_of(n.t, combine_of(c.s, tcw)));
    Node { s: mask_of(corrected), t: msb_of(corrected) }
}

/// A party's node after `i` levels of evaluation along the query path `x`.
pub open spec fn eval_node(b: u8, k: Seq<u8>, cws: Seq<CwModel>, x: Seq<bool>, i: int) -> Node
    decreases i,
{
    if i <= 0 {
        Node { s: k, t: b }
    } else {
        node_step(eval_node(b, k, cws, x, i - 1), cws[i - 1], x[i - 1])
    }
}

/// The one-bit share a party's evaluation yields: the control bit at the
/// bottom of its walk.
pub open spec fn eval_out(b: u8, k: Seq<u8>, cws: Seq<CwModel>, x: Seq<bool>) -> u8 {
    eval_node(b, k, cws, x, x.len() as int).t
}

} // verus!
