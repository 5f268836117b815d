//! Why lowered functions pass the structural verifier.
//!
//! Lowering keeps every function in a shape that is easy to check locally:
//! a value that an instruction uses is a parameter, a stack slot hoisted to
//! the top of the entry block, or the result of an earlier instruction of the
//! same block. This module states that shape, shows that the builder's
//! operations keep it, and shows that a function of that shape whose blocks
//! all have their terminators has no error in the verifier's walk.

use vstd::prelude::*;
use crate::ir::block::BasicBlock;
use crate::ir::builder::{
    alloca_prefix, func_with_block, func_with_instr, func_with_terminator, lemma_alloca_prefix,
};
use crate::ir::function::{Function, Param};
use crate::ir::instr::{Instruction, Terminator};
use crate::ir::types::TypeV;
use crate::ir::value::{BlockId, ValueId};
use crate::ir::verify::{
    block_defs, block_error, blocks_error, defined_before, first_undefined, function_error,
    instr_defs, instrs_error, param_ids,
};

verus! {

/// `v` stands for a parameter of `f`.
pub open spec fn is_param(f: Function, v: ValueId) -> bool {
    exists|p: int| 0 <= p < f.params@.len() && (#[trigger] f.params@[p]).id == v
}

/// `v` is a stack slot hoisted to the top of the entry block of `f`.
pub open spec fn is_slot(f: Function, v: ValueId) -> bool {
    exists|j: int|
        0 <= j < alloca_prefix(f.blocks@[0].instructions@) && (
        #[trigger] f.blocks@[0].instructions@[j]).def() == Some(v)
}

/// An instruction of block `k` before index `i` defines `v`.
pub open spec fn local_def(f: Function, k: int, i: int, v: ValueId) -> bool {
    exists|j: int|
        0 <= j < i && j < f.blocks@[k].instructions@.len() && (
        #[trigger] f.blocks@[k].instructions@[j]).def() == Some(v)
}

/// `v` may be used at index `i` of block `k`.
pub open spec fn avail(f: Function, k: int, i: int, v: ValueId) -> bool {
    is_param(f, v) || is_slot(f, v) || local_def(f, k, i, v)
}

/// Every value in `uses` may be used at index `i` of block `k`.
pub open spec fn all_avail(f: Function, k: int, i: int, uses: Seq<ValueId>) -> bool {
    forall|u: int| 0 <= u < uses.len() ==> avail(f, k, i, #[trigger] uses[u])
}

/// A return states the function's return type and carries a value unless
/// that type is `void`.
pub open spec fn ret_ok(f: Function, t: Terminator) -> bool {
    t matches Terminator::Ret { ty, value } ==> ty@ == f.ret_ty@ && (value is None ==> f.ret_ty@
        == TypeV::Void)
}

/// The instruction at index `i` of block `k` uses available values only.
pub open spec fn instr_sound(f: Function, k: int, i: int) -> bool {
    all_avail(f, k, i, f.blocks@[k].instructions@[i].uses())
}

/// Block `k` uses available values only, and its terminator, if it has one,
/// is a fitting one.
pub open spec fn block_sound(f: Function, k: int) -> bool {
    &&& forall|i: int| 0 <= i < f.blocks@[k].instructions@.len() ==> #[trigger] instr_sound(f, k, i)
    &&& match f.blocks@[k].terminator {
        Some(t) => all_avail(f, k, f.blocks@[k].instructions@.len() as int, t.uses()) && ret_ok(
            f,
            t,
        ),
        None => true,
    }
}

/// Every block of `f` is sound.
pub open spec fn func_sound(f: Function) -> bool {
    forall|k: int| 0 <= k < f.blocks@.len() ==> #[trigger] block_sound(f, k)
}

/// The entry block keeps what it holds: the stack allocations at the
/// start of `e0` stand at the start of `e1`, each where it stood, and every
/// instruction of `e0` is an instruction of `e1`.
pub open spec fn entry_kept(e0: Seq<Instruction>, e1: Seq<Instruction>) -> bool {
    &&& alloca_prefix(e0) <= alloca_prefix(e1)
    &&& forall|j: int| 0 <= j < alloca_prefix(e0) ==> #[trigger] e1[j] == e0[j]
    &&& forall|j: int| 0 <= j < e0.len() ==> e1.contains(#[trigger] e0[j])
}

/// `f1` has the parameters of `f0` and every hoisted slot of `f0`, and its
/// entry block keeps what that of `f0` holds.
pub open spec fn slots_kept(f0: Function, f1: Function) -> bool {
    &&& f1.params == f0.params
    &&& forall|v: ValueId| is_slot(f0, v) ==> is_slot(f1, v)
    &&& entry_kept(f0.blocks@[0].instructions@, f1.blocks@[0].instructions@)
}

/// A block keeps what it holds itself.
pub proof fn lemma_entry_kept_refl(e: Seq<Instruction>)
    ensures
        entry_kept(e, e),
{
    assert forall|j: int| 0 <= j < e.len() implies e.contains(#[trigger] e[j]) by {}
}

/// An instruction added behind the stack allocations at the start of a
/// block keeps what the block holds.
pub proof fn lemma_entry_kept_insert(e: Seq<Instruction>, at: int, ins: Instruction)
    requires
        alloca_prefix(e) <= at <= e.len(),
    ensures
        entry_kept(e, e.insert(at, ins)),
{
    let t = e.insert(at, ins);
    lemma_alloca_prefix_insert(e, at, ins);
    lemma_alloca_prefix(e);
    assert forall|j: int| 0 <= j < alloca_prefix(e) implies #[trigger] t[j] == e[j] by {}
    assert forall|j: int| 0 <= j < e.len() implies t.contains(#[trigger] e[j]) by {
        if j < at {
            assert(t[j] == e[j]);
        } else {
            assert(t[j + 1] == e[j]);
        }
    }
}

/// The index `p` is the length of the run of stack allocations at the start
/// of `s` where it bounds that run from both sides.
pub proof fn lemma_alloca_prefix_is(s: Seq<Instruction>, p: int)
    requires
        0 <= p <= s.len(),
        forall|j: int| 0 <= j < p ==> (#[trigger] s[j]) is Alloca,
        p < s.len() ==> !(s[p] is Alloca),
    ensures
        alloca_prefix(s) == p,
{
    lemma_alloca_prefix(s);
    let q = alloca_prefix(s);
    if q < p {
        assert(s[q] is Alloca);
    } else if q > p {
        assert(s[p] is Alloca);
    }
}

/// What adding an instruction does to the run of stack allocations at the
/// start of a block: added behind the run it leaves the run as it is, and a
/// stack allocation added right at the end of the run makes it one longer.
pub proof fn lemma_alloca_prefix_insert(s: Seq<Instruction>, at: int, ins: Instruction)
    requires
        alloca_prefix(s) <= at <= s.len(),
    ensures
        alloca_prefix(s.insert(at, ins)) >= alloca_prefix(s),
        at == alloca_prefix(s) && ins is Alloca ==> alloca_prefix(s.insert(at, ins))
            == alloca_prefix(s) + 1,
{
    lemma_alloca_prefix(s);
    let p = alloca_prefix(s);
    let t = s.insert(at, ins);
    if at == p {
        if ins is Alloca {
            assert forall|j: int| 0 <= j < p + 1 implies (#[trigger] t[j]) is Alloca by {
                if j < p {
                    assert(t[j] == s[j]);
                }
            }
            if p + 1 < t.len() {
                assert(t[p + 1] == s[p]);
            }
            lemma_alloca_prefix_is(t, p + 1);
        } else {
            assert forall|j: int| 0 <= j < p implies (#[trigger] t[j]) is Alloca by {
                assert(t[j] == s[j]);
            }
            lemma_alloca_prefix_is(t, p);
        }
    } else {
        assert forall|j: int| 0 <= j < p implies (#[trigger] t[j]) is Alloca by {
            assert(t[j] == s[j]);
        }
        assert(t[p] == s[p]);
        lemma_alloca_prefix_is(t, p);
    }
}

/// Adding an instruction behind the hoisted slots keeps them, and keeps
/// every value available where it was, one index later behind the new
/// instruction.
pub proof fn lemma_insert_keeps_avail(
    f0: Function,
    f1: Function,
    kk: int,
    at: int,
    ins: Instruction,
    k: int,
    i: int,
    v: ValueId,
)
    requires
        func_with_instr(f0, f1, kk, at, ins),
        0 <= at <= f0.blocks@[kk].instructions@.len(),
        f0.blocks@.len() >= 1,
        kk == 0 ==> at >= alloca_prefix(f0.blocks@[0].instructions@),
        0 <= k < f0.blocks@.len(),
        avail(f0, k, i, v),
    ensures
        avail(f1, k, if k == kk && i >= at { i + 1 } else { i }, v),
        is_slot(f0, v) ==> is_slot(f1, v),
{
    let s0 = f0.blocks@[kk].instructions@;
    let s1 = f1.blocks@[kk].instructions@;
    if is_slot(f0, v) {
        let j = choose|j: int|
            0 <= j < alloca_prefix(f0.blocks@[0].instructions@) && (
            #[trigger] f0.blocks@[0].instructions@[j]).def() == Some(v);
        if kk == 0 {
            lemma_alloca_prefix_insert(s0, at, ins);
            assert(s1[j] == s0[j]);
        } else {
            assert(f1.blocks@[0] == f0.blocks@[0]);
        }
        assert(f1.blocks@[0].instructions@[j].def() == Some(v));
    }
    if !is_param(f0, v) && !is_slot(f0, v) {
        let j = choose|j: int|
            0 <= j < i && j < f0.blocks@[k].instructions@.len() && (
            #[trigger] f0.blocks@[k].instructions@[j]).def() == Some(v);
        if k == kk {
            if j < at {
                assert(s1[j] == s0[j]);
                assert(f1.blocks@[k].instructions@[j].def() == Some(v));
            } else {
                assert(s1[j + 1] == s0[j]);
                assert(f1.blocks@[k].instructions@[j + 1].def() == Some(v));
            }
        } else {
            assert(f1.blocks@[k] == f0.blocks@[k]);
            assert(f1.blocks@[k].instructions@[j].def() == Some(v));
        }
    }
}

/// Adding an instruction that uses available values only, behind the
/// hoisted slots, keeps the function sound and keeps its slots; a stack
/// allocation added right behind the hoisted slots is one of them
/// afterwards.
pub proof fn lemma_insert_keeps_sound(
    f0: Function,
    f1: Function,
    kk: int,
    at: int,
    ins: Instruction,
)
    requires
        func_sound(f0),
        func_with_instr(f0, f1, kk, at, ins),
        0 <= at <= f0.blocks@[kk].instructions@.len(),
        f0.blocks@.len() >= 1,
        kk == 0 ==> at >= alloca_prefix(f0.blocks@[0].instructions@),
        all_avail(f0, kk, at, ins.uses()),
    ensures
        func_sound(f1),
        slots_kept(f0, f1),
        forall|k: int, i: int, v: ValueId|
            0 <= k < f0.blocks@.len() && #[trigger] avail(f0, k, i, v) ==> avail(
                f1,
                k,
                if k == kk && i >= at {
                    i + 1
                } else {
                    i
                },
                v,
            ),
        kk == 0 && at == alloca_prefix(f0.blocks@[0].instructions@) && ins is Alloca
            && ins.def() is Some ==> is_slot(f1, ins.def()->Some_0),
{
    let s0 = f0.blocks@[kk].instructions@;
    let s1 = f1.blocks@[kk].instructions@;
    assert forall|k: int, i: int, v: ValueId|
        0 <= k < f0.blocks@.len() && #[trigger] avail(f0, k, i, v) implies avail(
        f1,
        k,
        if k == kk && i >= at {
            i + 1
        } else {
            i
        },
        v,
    ) by {
        lemma_insert_keeps_avail(f0, f1, kk, at, ins, k, i, v);
    }
    assert forall|v: ValueId| is_slot(f0, v) implies is_slot(f1, v) by {
        lemma_insert_keeps_avail(f0, f1, kk, at, ins, 0, 0, v);
    }
    assert forall|k: int| 0 <= k < f1.blocks@.len() implies #[trigger] block_sound(f1, k) by {
        assert(block_sound(f0, k));
        let b0 = f0.blocks@[k];
        let b1 = f1.blocks@[k];
        if k != kk {
            assert(b1 == b0);
        }
        assert forall|i: int| 0 <= i < b1.instructions@.len() implies #[trigger] instr_sound(
            f1,
            k,
            i,
        ) by {
            let cur = b1.instructions@[i];
            if k == kk && i == at {
                assert(cur == ins);
                assert forall|u: int| 0 <= u < cur.uses().len() implies avail(
                    f1,
                    k,
                    i,
                    #[trigger] cur.uses()[u],
                ) by {
                    let v = cur.uses()[u];
                    assert(avail(f0, kk, at, v));
                    lemma_insert_keeps_avail(f0, f1, kk, at, ins, kk, at, v);
                    // available at at + 1 in f1; the witness is not the new instruction itself
                    if !is_param(f1, v) && !is_slot(f1, v) {
                        assert(!is_param(f0, v));
                        assert(!is_slot(f0, v));
                        let j = choose|j: int|
                            0 <= j < at && j < s0.len() && (
                            #[trigger] f0.blocks@[kk].instructions@[j]).def() == Some(v);
                        assert(s1[j] == s0[j]);
                        assert(f1.blocks@[k].instructions@[j].def() == Some(v));
                    }
                }
            } else {
                let i0 = if k == kk && i > at {
                    i - 1
                } else {
                    i
                };
                assert(instr_sound(f0, k, i0));
                assert(b0.instructions@[i0] == cur);
                assert forall|u: int| 0 <= u < cur.uses().len() implies avail(
                    f1,
                    k,
                    i,
                    #[trigger] cur.uses()[u],
                ) by {
                    let v = cur.uses()[u];
                    assert(avail(f0, k, i0, v));
                    lemma_insert_keeps_avail(f0, f1, kk, at, ins, k, i0, v);
                }
            }
        }
        match b1.terminator {
            Some(t) => {
                assert(b0.terminator == Some(t));
                assert forall|u: int| 0 <= u < t.uses().len() implies avail(
                    f1,
                    k,
                    b1.instructions@.len() as int,
                    #[trigger] t.uses()[u],
                ) by {
                    let v = t.uses()[u];
                    assert(avail(f0, k, b0.instructions@.len() as int, v));
                    lemma_insert_keeps_avail(
                        f0,
                        f1,
                        kk,
                        at,
                        ins,
                        k,
                        b0.instructions@.len() as int,
                        v,
                    );
                }
            },
            None => {},
        }
    }
    if kk == 0 && at == alloca_prefix(f0.blocks@[0].instructions@) && ins is Alloca
        && ins.def() is Some {
        lemma_alloca_prefix_insert(s0, at, ins);
        assert(s1[at] == ins);
        assert(f1.blocks@[0].instructions@[at].def() == ins.def());
    }
    if kk == 0 {
        lemma_entry_kept_insert(s0, at, ins);
    } else {
        assert(f1.blocks@[0] == f0.blocks@[0]);
        lemma_entry_kept_refl(f0.blocks@[0].instructions@);
    }
}

/// Setting a fitting terminator that uses available values only keeps the
/// function sound and its slots as they are.
pub proof fn lemma_terminator_keeps_sound(f0: Function, f1: Function, k: int, t: Terminator)
    requires
        func_sound(f0),
        func_with_terminator(f0, f1, k),
        f1.blocks@[k].terminator == Some(t),
        all_avail(f0, k, f0.blocks@[k].instructions@.len() as int, t.uses()),
        ret_ok(f0, t),
    ensures
        func_sound(f1),
        slots_kept(f0, f1),
        forall|b: int, i: int, v: ValueId|
            0 <= b < f0.blocks@.len() ==> (#[trigger] avail(f0, b, i, v) <==> avail(f1, b, i, v)),
{
    assert forall|b: int| 0 <= b < f0.blocks@.len() implies f1.blocks@[b].instructions
        == f0.blocks@[b].instructions by {
        if b != k {
            assert(f1.blocks@[b] == f0.blocks@[b]);
        }
    }
    assert(f1.blocks@[0].instructions == f0.blocks@[0].instructions);
    assert forall|b: int, i: int, v: ValueId| 0 <= b < f0.blocks@.len() implies (#[trigger] avail(
        f0,
        b,
        i,
        v,
    ) <==> avail(f1, b, i, v)) by {
        assert(f1.blocks@[b].instructions == f0.blocks@[b].instructions);
    }
    assert forall|b: int| 0 <= b < f1.blocks@.len() implies #[trigger] block_sound(f1, b) by {
        assert(block_sound(f0, b));
        assert(f1.blocks@[b].instructions == f0.blocks@[b].instructions);
        assert forall|i: int| 0 <= i < f1.blocks@[b].instructions@.len()
            implies #[trigger] instr_sound(
            f1,
            b,
            i,
        ) by {
            assert(instr_sound(f0, b, i));
        }
        if b != k {
            assert(f1.blocks@[b] == f0.blocks@[b]);
        }
    }
}

/// Adding an empty block keeps the function sound and its slots as they
/// are.
pub proof fn lemma_block_keeps_sound(f0: Function, f1: Function, id: BlockId, name: Seq<char>)
    requires
        func_sound(f0),
        func_with_block(f0, f1, id, name),
        f0.blocks@.len() >= 1,
    ensures
        func_sound(f1),
        slots_kept(f0, f1),
        forall|b: int, i: int, v: ValueId|
            0 <= b < f0.blocks@.len() ==> (#[trigger] avail(f0, b, i, v) <==> avail(f1, b, i, v)),
{
    let n = f0.blocks@.len() as int;
    assert forall|b: int| 0 <= b < n implies #[trigger] f1.blocks@[b] == f0.blocks@[b] by {
        assert(f1.blocks@.drop_last()[b] == f1.blocks@[b]);
    }
    assert(f1.blocks@[0] == f0.blocks@[0]);
    assert forall|b: int, i: int, v: ValueId| 0 <= b < n implies (#[trigger] avail(f0, b, i, v)
        <==> avail(f1, b, i, v)) by {
        assert(f1.blocks@[b] == f0.blocks@[b]);
    }
    assert forall|b: int| 0 <= b < f1.blocks@.len() implies #[trigger] block_sound(f1, b) by {
        if b < n {
            assert(block_sound(f0, b));
            assert(f1.blocks@[b] == f0.blocks@[b]);
            assert forall|i: int|
                0 <= i < f1.blocks@[b].instructions@.len() implies #[trigger] instr_sound(
                f1,
                b,
                i,
            ) by {
                assert(instr_sound(f0, b, i));
            }
        }
    }
}

/// The first `n` parameters are among the defined values.
pub proof fn lemma_param_ids_contains(params: Seq<Param>, n: int, p: int)
    requires
        0 <= p < n <= params.len(),
    ensures
        param_ids(params, n).contains(params[p].id.0),
    decreases n,
{
    if p < n - 1 {
        lemma_param_ids_contains(params, n - 1, p);
    }
}

/// What one of the first `n` instructions defines is among their
/// definitions.
pub proof fn lemma_instr_defs_contains(instrs: Seq<Instruction>, n: int, j: int, v: ValueId)
    requires
        0 <= j < n <= instrs.len(),
        instrs[j].def() == Some(v),
    ensures
        instr_defs(instrs, n).contains(v.0),
    decreases n,
{
    if j < n - 1 {
        lemma_instr_defs_contains(instrs, n - 1, j, v);
    }
}

/// What an instruction of one of the first `n` blocks defines is among
/// their definitions.
pub proof fn lemma_block_defs_contains(blocks: Seq<BasicBlock>, n: int, b: int, j: int, v: ValueId)
    requires
        0 <= b < n <= blocks.len(),
        0 <= j < blocks[b].instructions@.len(),
        blocks[b].instructions@[j].def() == Some(v),
    ensures
        block_defs(blocks, n).contains(v.0),
    decreases n,
{
    if b < n - 1 {
        lemma_block_defs_contains(blocks, n - 1, b, j, v);
    } else {
        lemma_instr_defs_contains(
            blocks[b].instructions@,
            blocks[b].instructions@.len() as int,
            j,
            v,
        );
    }
}

/// An available value counts as defined in the verifier's walk, at an index
/// that is behind the hoisted slots where the block is the entry block.
pub proof fn lemma_avail_is_defined(f: Function, k: int, i: int, v: ValueId)
    requires
        0 <= k < f.blocks@.len(),
        0 <= i <= f.blocks@[k].instructions@.len(),
        avail(f, k, i, v),
        k == 0 ==> i >= alloca_prefix(f.blocks@[0].instructions@),
    ensures
        defined_before(f, k, i).contains(v.0),
{
    if is_param(f, v) {
        let p = choose|p: int| 0 <= p < f.params@.len() && (#[trigger] f.params@[p]).id == v;
        lemma_param_ids_contains(f.params@, f.params@.len() as int, p);
    } else if is_slot(f, v) {
        let j = choose|j: int|
            0 <= j < alloca_prefix(f.blocks@[0].instructions@) && (
            #[trigger] f.blocks@[0].instructions@[j]).def() == Some(v);
        lemma_alloca_prefix(f.blocks@[0].instructions@);
        if k == 0 {
            lemma_instr_defs_contains(f.blocks@[0].instructions@, i, j, v);
        } else {
            lemma_block_defs_contains(f.blocks@, k, 0, j, v);
        }
    } else {
        let j = choose|j: int|
            0 <= j < i && j < f.blocks@[k].instructions@.len() && (
            #[trigger] f.blocks@[k].instructions@[j]).def() == Some(v);
        lemma_instr_defs_contains(f.blocks@[k].instructions@, i, j, v);
    }
}

/// Where every value of `uses` is defined, none is the first undefined one.
pub proof fn lemma_first_undefined_none(defined: Set<u32>, uses: Seq<ValueId>, from: int)
    requires
        0 <= from,
        forall|u: int| 0 <= u < uses.len() ==> defined.contains((#[trigger] uses[u]).0),
    ensures
        first_undefined(defined, uses, from) is None,
    decreases uses.len() - from,
{
    if from < uses.len() {
        lemma_first_undefined_none(defined, uses, from + 1);
    }
}

/// The instructions of a sound block use defined values only.
pub proof fn lemma_sound_instrs(f: Function, k: int, from: int)
    requires
        0 <= k < f.blocks@.len(),
        0 <= from,
        block_sound(f, k),
    ensures
        instrs_error(f, k, from) is None,
    decreases f.blocks@[k].instructions@.len() - from,
{
    let instrs = f.blocks@[k].instructions@;
    if from < instrs.len() {
        let uses = instrs[from].uses();
        assert(instr_sound(f, k, from));
        lemma_alloca_prefix(f.blocks@[0].instructions@);
        assert forall|u: int| 0 <= u < uses.len() implies defined_before(f, k, from).contains(
            (#[trigger] uses[u]).0,
        ) by {
            assert(avail(f, k, from, uses[u]));
            if k == 0 && from < alloca_prefix(instrs) {
                assert(instrs[from] is Alloca);
            }
            lemma_avail_is_defined(f, k, from, uses[u]);
        }
        lemma_first_undefined_none(defined_before(f, k, from), uses, 0);
        lemma_sound_instrs(f, k, from + 1);
    }
}

/// A sound block with its terminator has no error.
pub proof fn lemma_sound_block(f: Function, k: int)
    requires
        0 <= k < f.blocks@.len(),
        block_sound(f, k),
        f.blocks@[k].terminator is Some,
    ensures
        block_error(f, k) is None,
{
    lemma_sound_instrs(f, k, 0);
    let t = f.blocks@[k].terminator->Some_0;
    let n = f.blocks@[k].instructions@.len() as int;
    lemma_alloca_prefix(f.blocks@[0].instructions@);
    assert forall|u: int| 0 <= u < t.uses().len() implies defined_before(f, k, n).contains(
        (#[trigger] t.uses()[u]).0,
    ) by {
        assert(avail(f, k, n, t.uses()[u]));
        lemma_avail_is_defined(f, k, n, t.uses()[u]);
    }
    match t {
        Terminator::CBr { cond, .. } => {
            assert(t.uses()[0] == cond);
        },
        Terminator::Switch { value, .. } => {
            assert(t.uses()[0] == value);
        },
        Terminator::Ret { value, .. } => {
            if value is Some {
                assert(t.uses()[0] == value->Some_0);
            }
        },
        _ => {},
    }
}

/// A sound function whose blocks all have their terminators has no error
/// from block `from` on.
pub proof fn lemma_sound_blocks(f: Function, from: int)
    requires
        0 <= from,
        func_sound(f),
        forall|k: int| 0 <= k < f.blocks@.len() ==> (#[trigger] f.blocks@[k]).terminator is Some,
    ensures
        blocks_error(f, from) is None,
    decreases f.blocks@.len() - from,
{
    if from < f.blocks@.len() {
        assert(block_sound(f, from));
        assert(f.blocks@[from].terminator is Some);
        lemma_sound_block(f, from);
        lemma_sound_blocks(f, from + 1);
    }
}

/// A sound function whose blocks all have their terminators passes the
/// structural verifier.
pub proof fn lemma_sound_function_verifies(f: Function)
    requires
        func_sound(f),
        forall|k: int| 0 <= k < f.blocks@.len() ==> (#[trigger] f.blocks@[k]).terminator is Some,
    ensures
        function_error(f) is None,
{
    lemma_sound_blocks(f, 0);
}

} // verus!
