//! Correctness of the distributed point function: the two parties' shares
//! XOR to 1 exactly on the secret path and to 0 on every other path of the
//! same depth.
use vstd::prelude::*;

use crate::codec::bit_and;
use crate::codec::bit_of;
use crate::codec::block_xor;
use crate::codec::combine_of;
use crate::codec::is_seed;
use crate::codec::lemma_bit_xor_bounds;
use crate::codec::lemma_mask_seed;
use crate::codec::lemma_mask_xor;
use crate::codec::lemma_split_selected;
use crate::codec::lemma_xor_cancel;
use crate::codec::lemma_xor_comm;
use crate::codec::lemma_xor_seed;
use crate::codec::lemma_xor_zero;
use crate::codec::mask_of;
use crate::codec::msb_of;
use crate::codec::select_of;
use crate::model::CwModel;
use crate::model::LevelState;
use crate::model::Node;
use crate::model::cw_of;
use crate::model::cw_seq;
use crate::model::cw_wf;
use crate::model::eval_node;
use crate::model::eval_out;
use crate::model::gen_level;
use crate::model::gen_node_step;
use crate::model::node_step;
use crate::prg::prg_left;
use crate::prg::prg_right;

verus! {

/// The first `i` bits of the two paths agree.
pub open spec fn prefix_eq(x: Seq<bool>, y: Seq<bool>, i: int) -> bool {
    forall|j: int| 0 <= j < i ==> x[j] == y[j]
}

/// Every correction word the dealer emits is well formed.
pub proof fn lemma_cw_of_wf(l: LevelState, a: bool)
    ensures
        cw_wf(cw_of(l, a)),
{
    lemma_mask_seed(prg_left(l.n0.s));
    lemma_mask_seed(prg_right(l.n0.s));
    lemma_mask_seed(prg_left(l.n1.s));
    lemma_mask_seed(prg_right(l.n1.s));
    if a {
        lemma_xor_seed(mask_of(prg_left(l.n0.s)), mask_of(prg_left(l.n1.s)));
    } else {
        lemma_xor_seed(mask_of(prg_right(l.n0.s)), mask_of(prg_right(l.n1.s)));
    }
    lemma_bit_xor_bounds(msb_of(prg_left(l.n0.s)), msb_of(prg_left(l.n1.s)), bit_of(a), 1);
    lemma_bit_xor_bounds(msb_of(prg_right(l.n0.s)), msb_of(prg_right(l.n1.s)), bit_of(a), 0);
}

/// The keep-branch control correction flips exactly one party: if the two
/// control bits differ going in, they differ coming out.
proof fn lemma_control_step(m0: u8, m1: u8, t0: u8, t1: u8, tcw: u8)
    requires
        m0 <= 1,
        m1 <= 1,
        (t0 == 0 && t1 == 1) || (t0 == 1 && t1 == 0),
        tcw == (m0 ^ m1) ^ 1,
    ensures
        ((m0 ^ bit_and(t0, tcw)) == 0 && (m1 ^ bit_and(t1, tcw)) == 1) || ((m0 ^ bit_and(
            t0,
            tcw,
        )) == 1 && (m1 ^ bit_and(t1, tcw)) == 0),
{
    if t0 == 0 {
        assert((((m0 ^ 0) == 0 && (m1 ^ ((m0 ^ m1) ^ 1)) == 1) || ((m0 ^ 0) == 1 && (m1 ^ ((m0
            ^ m1) ^ 1)) == 0))) by (bit_vector)
            requires
                m0 <= 1,
                m1 <= 1,
        ;
    } else {
        assert((((m0 ^ ((m0 ^ m1) ^ 1)) == 0 && (m1 ^ 0) == 1) || ((m0 ^ ((m0 ^ m1) ^ 1)) == 1 && (
        m1 ^ 0) == 0))) by (bit_vector)
            requires
                m0 <= 1,
                m1 <= 1,
        ;
    }
}

/// At every level of the dealer's walk both seeds are masked and the two
/// control bits are distinct bits: one party holds 0 and the other holds 1.
pub proof fn lemma_gen_level_wf(r0: Seq<u8>, r1: Seq<u8>, alpha: Seq<bool>, i: int)
    requires
        is_seed(r0),
        is_seed(r1),
        0 <= i <= alpha.len(),
    ensures
        is_seed(gen_level(r0, r1, alpha, i).n0.s),
        is_seed(gen_level(r0, r1, alpha, i).n1.s),
        (gen_level(r0, r1, alpha, i).n0.t == 0 && gen_level(r0, r1, alpha, i).n1.t == 1) || (
        gen_level(r0, r1, alpha, i).n0.t == 1 && gen_level(r0, r1, alpha, i).n1.t == 0),
    decreases i,
{
    if i > 0 {
        lemma_gen_level_wf(r0, r1, alpha, i - 1);
        let prev = gen_level(r0, r1, alpha, i - 1);
        let a = alpha[i - 1];
        let c = cw_of(prev, a);
        lemma_cw_of_wf(prev, a);
        let raw0 = if a {
            prg_right(prev.n0.s)
        } else {
            prg_left(prev.n0.s)
        };
        let raw1 = if a {
            prg_right(prev.n1.s)
        } else {
            prg_left(prev.n1.s)
        };
        let m0 = msb_of(raw0);
        let m1 = msb_of(raw1);
        let tcw = if a {
            c.tr
        } else {
            c.tl
        };
        lemma_mask_seed(raw0);
        lemma_mask_seed(raw1);
        lemma_split_selected(prev.n0.t, c.s, tcw);
        lemma_split_selected(prev.n1.t, c.s, tcw);
        lemma_xor_seed(mask_of(raw0), select_of(prev.n0.t, c.s));
        lemma_xor_seed(mask_of(raw1), select_of(prev.n1.t, c.s));
        if !a {
            assert(tcw == ((m0 ^ m1) ^ bit_of(a)) ^ 1);
            assert(((m0 ^ m1) ^ 0) ^ 1 == (m0 ^ m1) ^ 1) by (bit_vector);
        }
        lemma_control_step(m0, m1, prev.n0.t, prev.n1.t, tcw);
    }
}

/// A party's one evaluation step agrees with the dealer's form of the same
/// step: correcting the raw expansion and then splitting it is the same as
/// splitting first and correcting seed and control bit separately.
pub proof fn lemma_step_match(n: Node, c: CwModel, dir: bool)
    requires
        n.t <= 1,
        cw_wf(c),
    ensures
        node_step(n, c, dir) == gen_node_step(n, c, dir),
{
    let raw = if dir {
        prg_right(n.s)
    } else {
        prg_left(n.s)
    };
    let tcw = if dir {
        c.tr
    } else {
        c.tl
    };
    lemma_split_selected(n.t, c.s, tcw);
    lemma_mask_xor(raw, select_of(n.t, combine_of(c.s, tcw)));
    assert(node_step(n, c, dir).s == gen_node_step(n, c, dir).s);
    assert(node_step(n, c, dir).t == gen_node_step(n, c, dir).t);
}

/// On the first level where the query path leaves the secret path, the two
/// parties' walks collapse into the same node.
proof fn lemma_diverge(l: LevelState, a: bool)
    requires
        (l.n0.t == 0 && l.n1.t == 1) || (l.n0.t == 1 && l.n1.t == 0),
    ensures
        gen_node_step(l.n0, cw_of(l, a), !a) == gen_node_step(l.n1, cw_of(l, a), !a),
{
    let c = cw_of(l, a);
    let raw0 = if a {
        prg_left(l.n0.s)
    } else {
        prg_right(l.n0.s)
    };
    let raw1 = if a {
        prg_left(l.n1.s)
    } else {
        prg_right(l.n1.s)
    };
    let m0 = msb_of(raw0);
    let m1 = msb_of(raw1);
    let tcw = if a {
        c.tl
    } else {
        c.tr
    };
    lemma_mask_seed(raw0);
    lemma_mask_seed(raw1);
    assert(c.s == block_xor(mask_of(raw0), mask_of(raw1)));
    if l.n0.t == 0 {
        lemma_xor_zero(mask_of(raw0));
        lemma_xor_comm(mask_of(raw0), mask_of(raw1));
        lemma_xor_cancel(mask_of(raw1), mask_of(raw0));
        assert(gen_node_step(l.n0, c, !a).s == mask_of(raw0));
        assert(gen_node_step(l.n1, c, !a).s == mask_of(raw0));
        if a {
            assert((m0 ^ 0) == (m1 ^ (((m0 ^ m1) ^ 1) ^ 1))) by (bit_vector);
        } else {
            assert((m0 ^ 0) == (m1 ^ ((m0 ^ m1) ^ 0))) by (bit_vector);
        }
    } else {
        lemma_xor_zero(mask_of(raw1));
        lemma_xor_cancel(mask_of(raw0), mask_of(raw1));
        assert(gen_node_step(l.n0, c, !a).s == mask_of(raw1));
        assert(gen_node_step(l.n1, c, !a).s == mask_of(raw1));
        if a {
            assert((m0 ^ (((m0 ^ m1) ^ 1) ^ 1)) == (m1 ^ 0)) by (bit_vector);
        } else {
            assert((m0 ^ ((m0 ^ m1) ^ 0)) == (m1 ^ 0)) by (bit_vector);
        }
    }
}

/// The two parties' nodes after `i` levels of evaluation: while the query
/// path tracks the secret path they are the dealer's two per-party states;
/// once the paths have split they are one and the same node.
pub proof fn lemma_eval_nodes(r0: Seq<u8>, r1: Seq<u8>, alpha: Seq<bool>, x: Seq<bool>, i: int)
    requires
        is_seed(r0),
        is_seed(r1),
        x.len() == alpha.len(),
        0 <= i <= x.len(),
    ensures
        prefix_eq(x, alpha, i) ==> eval_node(0, r0, cw_seq(r0, r1, alpha), x, i) == gen_level(
            r0,
            r1,
            alpha,
            i,
        ).n0 && eval_node(1, r1, cw_seq(r0, r1, alpha), x, i) == gen_level(r0, r1, alpha, i).n1,
        !prefix_eq(x, alpha, i) ==> eval_node(0, r0, cw_seq(r0, r1, alpha), x, i) == eval_node(
            1,
            r1,
            cw_seq(r0, r1, alpha),
            x,
            i,
        ),
    decreases i,
{
    let cws = cw_seq(r0, r1, alpha);
    if i > 0 {
        lemma_eval_nodes(r0, r1, alpha, x, i - 1);
        lemma_gen_level_wf(r0, r1, alpha, i - 1);
        let prev = gen_level(r0, r1, alpha, i - 1);
        let a = alpha[i - 1];
        let c = cw_of(prev, a);
        assert(cws[i - 1] == c);
        lemma_cw_of_wf(prev, a);
        if prefix_eq(x, alpha, i - 1) {
            lemma_step_match(prev.n0, c, x[i - 1]);
            lemma_step_match(prev.n1, c, x[i - 1]);
            if x[i - 1] == a {
                assert(prefix_eq(x, alpha, i));
            } else {
                lemma_diverge(prev, a);
                assert(!prefix_eq(x, alpha, i));
            }
        } else {
            assert(!prefix_eq(x, alpha, i));
        }
    }
}

/// Correctness of the DPF. For any depth, any secret path `alpha` and any
/// query path `x` of that depth, the XOR of the two parties' shares is 1 when
/// `x` is the secret path and 0 otherwise, over the correction words the
/// dealer derives from any two well-formed root seeds.
pub proof fn lemma_gen_eval_correct(r0: Seq<u8>, r1: Seq<u8>, alpha: Seq<bool>, x: Seq<bool>)
    requires
        is_seed(r0),
        is_seed(r1),
        x.len() == alpha.len(),
    ensures
        eval_out(0, r0, cw_seq(r0, r1, alpha), x) ^ eval_out(1, r1, cw_seq(r0, r1, alpha), x) == (
        if x == alpha {
            1u8
        } else {
            0u8
        }),
{
    let cws = cw_seq(r0, r1, alpha);
    let n = x.len() as int;
    lemma_eval_nodes(r0, r1, alpha, x, n);
    if prefix_eq(x, alpha, n) {
        assert(x =~= alpha);
        lemma_gen_level_wf(r0, r1, alpha, n);
        assert(0u8 ^ 1u8 == 1) by (bit_vector);
        assert(1u8 ^ 0u8 == 1) by (bit_vector);
    } else {
        assert(!(x == alpha)) by {
            if x == alpha {
                assert(prefix_eq(x, alpha, n));
            }
        };
        let t = eval_node(0, r0, cws, x, n).t;
        assert(t ^ t == 0) by (bit_vector);
    }
}

} // verus!
