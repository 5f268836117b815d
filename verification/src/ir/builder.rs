//! The builder: the one way to put a module together. It issues fresh
//! identifiers, keeps an insertion point, and hoists stack slots to the top of
//! the entry block.

use vstd::prelude::*;
use crate::ir::block::BasicBlock;
use crate::ir::function::{Function, Param};
use crate::ir::instr::{
    BinOp, Callee, CheckedOp, CmpOp, ConstValue, FloatConst, ICmpPred, Instruction, Terminator,
};
use crate::ir::module::{Global, Module};
use crate::ir::types::{DataLayout, Type, TypeV};
use crate::ir::value::{BlockId, ValueId};

verus! {

/// The index of the first block of `blocks` with the identity `id`, or the
/// length of `blocks` where there is none.
pub open spec fn block_index(blocks: Seq<BasicBlock>, id: BlockId) -> int
    decreases blocks.len(),
{
    if blocks.len() == 0 {
        0
    } else if blocks[0].id == id {
        0
    } else {
        1 + block_index(blocks.subrange(1, blocks.len() as int), id)
    }
}

/// `block_index` finds the least index with the wanted identity.
pub proof fn lemma_block_index(blocks: Seq<BasicBlock>, id: BlockId)
    ensures
        0 <= block_index(blocks, id) <= blocks.len(),
        block_index(blocks, id) < blocks.len() ==> blocks[block_index(blocks, id)].id == id,
        forall|k: int| 0 <= k < block_index(blocks, id) ==> (#[trigger] blocks[k]).id != id,
    decreases blocks.len(),
{
    if blocks.len() > 0 && blocks[0].id != id {
        let rest = blocks.subrange(1, blocks.len() as int);
        lemma_block_index(rest, id);
        assert forall|k: int| 0 <= k < block_index(blocks, id) implies (#[trigger] blocks[k]).id
            != id by {
            if k > 0 {
                assert(blocks[k] == rest[k - 1]);
            }
        }
    }
}

/// Where the identities of `blocks` are distinct, the block at index `k` is
/// the one that `block_index` finds for its identity.
pub proof fn lemma_block_index_unique(blocks: Seq<BasicBlock>, k: int)
    requires
        0 <= k < blocks.len(),
        forall|i: int, j: int|
            0 <= i < j < blocks.len() ==> (#[trigger] blocks[i]).id != (#[trigger] blocks[j]).id,
    ensures
        block_index(blocks, blocks[k].id) == k,
{
    lemma_block_index(blocks, blocks[k].id);
    let found = block_index(blocks, blocks[k].id);
    if found < k {
        assert(blocks[found].id != blocks[k].id);
    }
}

/// The length of the run of stack allocations at the start of `instrs`: the
/// index of the first instruction that is none, or the length of `instrs`.
pub open spec fn alloca_prefix(instrs: Seq<Instruction>) -> int
    decreases instrs.len(),
{
    if instrs.len() == 0 {
        0
    } else if !(instrs[0] is Alloca) {
        0
    } else {
        1 + alloca_prefix(instrs.subrange(1, instrs.len() as int))
    }
}

/// `alloca_prefix` is the least index of an instruction that is no stack
/// allocation.
pub proof fn lemma_alloca_prefix(instrs: Seq<Instruction>)
    ensures
        0 <= alloca_prefix(instrs) <= instrs.len(),
        alloca_prefix(instrs) < instrs.len() ==> !(instrs[alloca_prefix(instrs)] is Alloca),
        forall|k: int| 0 <= k < alloca_prefix(instrs) ==> (#[trigger] instrs[k]) is Alloca,
    decreases instrs.len(),
{
    if instrs.len() > 0 && instrs[0] is Alloca {
        let rest = instrs.subrange(1, instrs.len() as int);
        lemma_alloca_prefix(rest);
        assert forall|k: int| 0 <= k < alloca_prefix(instrs) implies (
        #[trigger] instrs[k]) is Alloca by {
            if k > 0 {
                assert(instrs[k] == rest[k - 1]);
            }
        }
    }
}

/// Whether the table `table` has an entry for the value `id`.
pub open spec fn has_type(table: Seq<(ValueId, Type)>, id: ValueId) -> bool {
    exists|k: int| 0 <= k < table.len() && (#[trigger] table[k]).0 == id
}

/// `b1` is `b0` with `ins` added at index `at`.
pub open spec fn block_with(b0: BasicBlock, b1: BasicBlock, at: int, ins: Instruction) -> bool {
    &&& b1.id == b0.id
    &&& b1.name == b0.name
    &&& b1.terminator == b0.terminator
    &&& b1.instructions@ == b0.instructions@.insert(at, ins)
}

/// `s1` and `s0` have the same blocks but, at most, at index `k`.
pub open spec fn same_but(s0: Seq<BasicBlock>, s1: Seq<BasicBlock>, k: int) -> bool {
    &&& s1.len() == s0.len()
    &&& forall|j: int| 0 <= j < s0.len() && j != k ==> #[trigger] s1[j] == s0[j]
}

/// `t1` is `t0` with one more entry at its end, for `id` with the type `ty`.
pub open spec fn table_with(
    t0: Seq<(ValueId, Type)>,
    t1: Seq<(ValueId, Type)>,
    id: ValueId,
    ty: TypeV,
) -> bool {
    &&& t1.len() == t0.len() + 1
    &&& t1.drop_last() == t0
    &&& t1.last().0 == id
    &&& t1.last().1@ == ty
}

/// Puts a module together: globals and functions in the order in which they
/// are added. Value and block identifiers come from two counters that only
/// grow, so none is issued twice.
pub struct ModuleBuilder {
    module: Module,
    next_value: u32,
    next_block: u32,
}

/// Puts one function together. It borrows the module builder that began it,
/// draws identifiers from it, and hands the function over in `finish`.
pub struct FunctionBuilder<'a> {
    pub mb: &'a mut ModuleBuilder,
    pub func: Function,
    pub insert_block: BlockId,
}

impl ModuleBuilder {
    /// The module as built so far.
    pub closed spec fn module(&self) -> Module {
        self.module
    }

    /// The number of the next value identifier.
    pub closed spec fn next_value(&self) -> u32 {
        self.next_value
    }

    /// The number of the next block identifier.
    pub closed spec fn next_block(&self) -> u32 {
        self.next_block
    }

    /// The number of value identifiers issued so far.
    pub fn values_issued(&self) -> (n: u32)
        ensures
            n == self.next_value(),
    {
        self.next_value
    }

    /// The number of block identifiers issued so far.
    pub fn blocks_issued(&self) -> (n: u32)
        ensures
            n == self.next_block(),
    {
        self.next_block
    }

    /// A builder for an empty module.
    pub fn new(target: &str, datalayout: DataLayout) -> (r: Self)
        ensures
            r.module().target@ == target@,
            r.module().datalayout == datalayout,
            r.module().globals@ == Seq::<Global>::empty(),
            r.module().functions@ == Seq::<Function>::empty(),
            r.next_value() == 0,
            r.next_block() == 0,
    {
        ModuleBuilder { module: Module::new(target, datalayout), next_value: 0, next_block: 0 }
    }

    /// Adds a global constant at the end of the module's globals.
    pub fn add_global(&mut self, name: &str, ty: Type, init: ConstValue, align: u32)
        ensures
            final(self).module().globals@.len() == old(self).module().globals@.len() + 1,
            final(self).module().globals@.drop_last() == old(self).module().globals@,
            final(self).module().globals@.last().name@ == name@,
            final(self).module().globals@.last().ty == ty,
            final(self).module().globals@.last().init == init,
            final(self).module().globals@.last().align == align,
            final(self).module().target == old(self).module().target,
            final(self).module().datalayout == old(self).module().datalayout,
            final(self).module().functions == old(self).module().functions,
            final(self).next_value() == old(self).next_value(),
            final(self).next_block() == old(self).next_block(),
    {
        self.module.globals.push(Global { name: name.to_owned(), ty, init, align });
        assert(self.module.globals@.drop_last() =~= old(self).module.globals@);
    }

    /// Begins a function: one fresh value per parameter, in order, each
    /// entered in the value table; one fresh, empty entry block named
    /// `entry`; the insertion point at that block.
    pub fn begin_function(&mut self, name: &str, params: Vec<(String, Type)>, ret_ty: Type) -> (fb:
        FunctionBuilder<'_>)
        requires
            old(self).next_value() + params@.len() <= u32::MAX,
            old(self).next_block() < u32::MAX,
        ensures
            fb.wf(),
            fb.func.name@ == name@,
            fb.func.ret_ty == ret_ty,
            fb.func.params@.len() == params@.len(),
            forall|i: int|
                0 <= i < params@.len() ==> {
                    &&& (#[trigger] fb.func.params@[i]).name@ == params@[i].0@
                    &&& fb.func.params@[i].id == ValueId((old(self).next_value() + i) as u32)
                    &&& fb.func.params@[i].ty@ == params@[i].1@
                },
            fb.func.value_types@.len() == params@.len(),
            forall|i: int|
                0 <= i < params@.len() ==> {
                    &&& (#[trigger] fb.func.value_types@[i]).0 == ValueId(
                        (old(self).next_value() + i) as u32,
                    )
                    &&& fb.func.value_types@[i].1@ == params@[i].1@
                },
            fb.func.blocks@.len() == 1,
            fb.func.blocks@[0].id == fb.func.entry,
            fb.func.blocks@[0].name@ == "entry"@,
            fb.func.blocks@[0].instructions@.len() == 0,
            fb.func.blocks@[0].terminator is None,
            fb.func.entry == BlockId(old(self).next_block()),
            fb.insert_block == fb.func.entry,
            fb.next_value() == old(self).next_value() + params@.len(),
            fb.next_block() == old(self).next_block() + 1,
            fb.parent().module() == old(self).module(),
            *final(self) == *final(fb.mb),
    {
        let mut p: Vec<Param> = Vec::new();
        let mut value_types: Vec<(ValueId, Type)> = Vec::new();
        let base = self.next_value;
        let mut i: usize = 0;
        while i < params.len()
            invariant
                i <= params@.len(),
                base + params@.len() <= u32::MAX,
                self.next_value == base + i,
                self.next_block == old(self).next_block,
                self.module == old(self).module,
                p@.len() == i,
                value_types@.len() == i,
                forall|j: int|
                    0 <= j < i ==> {
                        &&& (#[trigger] p@[j]).name@ == params@[j].0@
                        &&& p@[j].id == ValueId((base + j) as u32)
                        &&& p@[j].ty@ == params@[j].1@
                    },
                forall|j: int|
                    0 <= j < i ==> {
                        &&& (#[trigger] value_types@[j]).0 == ValueId((base + j) as u32)
                        &&& value_types@[j].1@ == params@[j].1@
                    },
            decreases params@.len() - i,
        {
            let id = ValueId(self.next_value);
            self.next_value = self.next_value + 1;
            value_types.push((id, params[i].1.clone()));
            p.push(Param { name: params[i].0.clone(), id, ty: params[i].1.clone() });
            i += 1;
        }
        let entry = BlockId(self.next_block);
        self.next_block = self.next_block + 1;
        let mut blocks: Vec<BasicBlock> = Vec::new();
        blocks.push(BasicBlock::new(entry, "entry"));
        let func = Function {
            name: name.to_owned(),
            params: p,
            ret_ty,
            blocks,
            entry,
            value_types,
        };
        proof {
            assert forall|q: int| 0 <= q < func.params@.len() implies has_type(
                func.value_types@,
                (#[trigger] func.params@[q]).id,
            ) by {
                assert(func.value_types@[q].0 == func.params@[q].id);
            }
        }
        FunctionBuilder { mb: self, func, insert_block: entry }
    }

    /// Hands the finished module over.
    pub fn finish(self) -> (r: Module)
        ensures
            r == self.module(),
    {
        self.module
    }
}

/// `f1` is `f0` with `ins` added to block `k` at index `at`; the value table
/// is not spoken of.
pub open spec fn func_with_instr(
    f0: Function,
    f1: Function,
    k: int,
    at: int,
    ins: Instruction,
) -> bool {
    &&& f1.name == f0.name
    &&& f1.params == f0.params
    &&& f1.ret_ty == f0.ret_ty
    &&& f1.entry == f0.entry
    &&& 0 <= k < f0.blocks@.len()
    &&& same_but(f0.blocks@, f1.blocks@, k)
    &&& block_with(f0.blocks@[k], f1.blocks@[k], at, ins)
}

/// `f1` is `f0` with the terminator of block `k` set or replaced; the new
/// terminator is not spoken of.
pub open spec fn func_with_terminator(f0: Function, f1: Function, k: int) -> bool {
    &&& f1.name == f0.name
    &&& f1.params == f0.params
    &&& f1.ret_ty == f0.ret_ty
    &&& f1.entry == f0.entry
    &&& f1.value_types == f0.value_types
    &&& 0 <= k < f0.blocks@.len()
    &&& same_but(f0.blocks@, f1.blocks@, k)
    &&& f1.blocks@[k].id == f0.blocks@[k].id
    &&& f1.blocks@[k].name == f0.blocks@[k].name
    &&& f1.blocks@[k].instructions == f0.blocks@[k].instructions
    &&& f1.blocks@[k].terminator is Some
}

/// The bookkeeping that every function under construction keeps: the entry
/// block comes first; block identifiers are distinct and below the block
/// counter; the identifiers in the value table are distinct and below the
/// value counter; every parameter and every value that an instruction defines
/// has its entry in the value table.
pub open spec fn func_wf(f: Function, next_value: u32, next_block: u32) -> bool {
    &&& f.blocks@.len() >= 1
    &&& f.blocks@[0].id == f.entry
    &&& forall|j: int| 0 <= j < f.blocks@.len() ==> (#[trigger] f.blocks@[j]).id.0 < next_block
    &&& forall|i: int, j: int|
        0 <= i < j < f.blocks@.len()
            ==> (#[trigger] f.blocks@[i]).id != (#[trigger] f.blocks@[j]).id
    &&& forall|k: int|
        0 <= k < f.value_types@.len() ==> (#[trigger] f.value_types@[k]).0.0 < next_value
    &&& forall|i: int, j: int|
        0 <= i < j < f.value_types@.len() ==> (#[trigger] f.value_types@[i]).0 != (
        #[trigger] f.value_types@[j]).0
    &&& forall|p: int|
        0 <= p < f.params@.len() ==> has_type(f.value_types@, (#[trigger] f.params@[p]).id)
    &&& forall|b: int, i: int|
        0 <= b < f.blocks@.len() && 0 <= i < f.blocks@[b].instructions@.len() ==> (match (
        #[trigger] f.blocks@[b].instructions@[i]).def() {
            Some(v) => has_type(f.value_types@, v),
            None => true,
        })
}

/// An entry of the table stays one when the table grows at its end.
pub proof fn lemma_has_type_grows(t0: Seq<(ValueId, Type)>, t1: Seq<(ValueId, Type)>, id: ValueId)
    requires
        t1.len() >= t0.len(),
        t1.subrange(0, t0.len() as int) == t0,
        has_type(t0, id),
    ensures
        has_type(t1, id),
{
    let k = choose|k: int| 0 <= k < t0.len() && (#[trigger] t0[k]).0 == id;
    assert(t1.subrange(0, t0.len() as int)[k] == t1[k]);
    assert(t1[k].0 == id);
}

/// Adding an instruction keeps the bookkeeping, where the value that it
/// defines has its entry in the (possibly grown) table and the counter is not
/// lowered.
pub proof fn lemma_instr_keeps_wf(
    f0: Function,
    f1: Function,
    k: int,
    at: int,
    ins: Instruction,
    nv0: u32,
    nv1: u32,
    nb: u32,
)
    requires
        func_wf(f0, nv0, nb),
        func_with_instr(f0, f1, k, at, ins),
        0 <= at <= f0.blocks@[k].instructions@.len(),
        nv0 <= nv1,
        f1.value_types@.len() >= f0.value_types@.len(),
        f1.value_types@.subrange(0, f0.value_types@.len() as int) == f0.value_types@,
        forall|j: int|
            0 <= j < f1.value_types@.len() ==> (#[trigger] f1.value_types@[j]).0.0 < nv1,
        forall|i: int, j: int|
            0 <= i < j < f1.value_types@.len() ==> (#[trigger] f1.value_types@[i]).0 != (
            #[trigger] f1.value_types@[j]).0,
        ins.def() matches Some(v) ==> has_type(f1.value_types@, v),
    ensures
        func_wf(f1, nv1, nb),
{
    let t0 = f0.value_types@;
    let t1 = f1.value_types@;
    assert forall|j: int| 0 <= j < f1.blocks@.len() implies (#[trigger] f1.blocks@[j]).id.0
        < nb by {
        assert(f1.blocks@[j].id == f0.blocks@[j].id);
    }
    assert forall|i: int, j: int| 0 <= i < j < f1.blocks@.len() implies (
    #[trigger] f1.blocks@[i]).id != (#[trigger] f1.blocks@[j]).id by {
        assert(f1.blocks@[i].id == f0.blocks@[i].id);
        assert(f1.blocks@[j].id == f0.blocks@[j].id);
    }
    assert forall|p: int| 0 <= p < f1.params@.len() implies has_type(
        t1,
        (#[trigger] f1.params@[p]).id,
    ) by {
        lemma_has_type_grows(t0, t1, f0.params@[p].id);
    }
    assert forall|b: int, i: int|
        0 <= b < f1.blocks@.len() && 0 <= i < f1.blocks@[b].instructions@.len() implies (match (
    #[trigger] f1.blocks@[b].instructions@[i]).def() {
        Some(v) => has_type(t1, v),
        None => true,
    }) by {
        let cur = f1.blocks@[b].instructions@[i];
        if b != k {
            assert(f1.blocks@[b] == f0.blocks@[b]);
            let old_ins = f0.blocks@[b].instructions@[i];
            if old_ins.def() is Some {
                lemma_has_type_grows(t0, t1, old_ins.def()->Some_0);
            }
        } else if i < at {
            let old_ins = f0.blocks@[b].instructions@[i];
            assert(cur == old_ins);
            if old_ins.def() is Some {
                lemma_has_type_grows(t0, t1, old_ins.def()->Some_0);
            }
        } else if i > at {
            let old_ins = f0.blocks@[b].instructions@[i - 1];
            assert(cur == old_ins);
            if old_ins.def() is Some {
                lemma_has_type_grows(t0, t1, old_ins.def()->Some_0);
            }
        } else {
            assert(cur == ins);
        }
    }
}

/// Setting a terminator keeps the bookkeeping.
pub proof fn lemma_terminator_keeps_wf(f0: Function, f1: Function, k: int, nv: u32, nb: u32)
    requires
        func_wf(f0, nv, nb),
        func_with_terminator(f0, f1, k),
    ensures
        func_wf(f1, nv, nb),
{
    assert forall|j: int| 0 <= j < f1.blocks@.len() implies (#[trigger] f1.blocks@[j]).id.0
        < nb by {
        assert(f1.blocks@[j].id == f0.blocks@[j].id);
    }
    assert forall|i: int, j: int| 0 <= i < j < f1.blocks@.len() implies (
    #[trigger] f1.blocks@[i]).id != (#[trigger] f1.blocks@[j]).id by {
        assert(f1.blocks@[i].id == f0.blocks@[i].id);
        assert(f1.blocks@[j].id == f0.blocks@[j].id);
    }
    assert forall|b: int, i: int|
        0 <= b < f1.blocks@.len() && 0 <= i < f1.blocks@[b].instructions@.len() implies (match (
    #[trigger] f1.blocks@[b].instructions@[i]).def() {
        Some(v) => has_type(f1.value_types@, v),
        None => true,
    }) by {
        assert(f1.blocks@[b].instructions == f0.blocks@[b].instructions);
        assert(f1.blocks@[b].instructions@[i] == f0.blocks@[b].instructions@[i]);
    }
}

/// `f1` is `f0` with one more block at its end: an empty one, without a
/// terminator, with the identity `id` and the name `name`.
pub open spec fn func_with_block(f0: Function, f1: Function, id: BlockId, name: Seq<char>) -> bool {
    &&& f1.name == f0.name
    &&& f1.params == f0.params
    &&& f1.ret_ty == f0.ret_ty
    &&& f1.entry == f0.entry
    &&& f1.value_types == f0.value_types
    &&& f1.blocks@.len() == f0.blocks@.len() + 1
    &&& f1.blocks@.drop_last() == f0.blocks@
    &&& f1.blocks@.last().id == id
    &&& f1.blocks@.last().name@ == name
    &&& f1.blocks@.last().instructions@.len() == 0
    &&& f1.blocks@.last().terminator is None
}

/// Adding a block with a fresh identity keeps the bookkeeping.
pub proof fn lemma_block_keeps_wf(f0: Function, f1: Function, name: Seq<char>, nv: u32, nb: u32)
    requires
        func_wf(f0, nv, nb),
        func_with_block(f0, f1, BlockId(nb), name),
        nb < u32::MAX,
    ensures
        func_wf(f1, nv, (nb + 1) as u32),
        block_index(f1.blocks@, BlockId(nb)) == f0.blocks@.len(),
        forall|id: BlockId|
            block_index(f0.blocks@, id) < f0.blocks@.len() ==> block_index(f1.blocks@, id)
                == block_index(f0.blocks@, id),
{
    let n = f0.blocks@.len() as int;
    assert forall|j: int| 0 <= j < n implies #[trigger] f1.blocks@[j] == f0.blocks@[j] by {
        assert(f1.blocks@.drop_last()[j] == f1.blocks@[j]);
    }
    assert forall|i: int, j: int| 0 <= i < j < f1.blocks@.len() implies (
    #[trigger] f1.blocks@[i]).id != (#[trigger] f1.blocks@[j]).id by {
        assert(f1.blocks@[i] == f0.blocks@[i]);
        if j < n {
            assert(f1.blocks@[j] == f0.blocks@[j]);
        }
    }
    assert forall|b: int, i: int|
        0 <= b < f1.blocks@.len() && 0 <= i < f1.blocks@[b].instructions@.len() implies (match (
    #[trigger] f1.blocks@[b].instructions@[i]).def() {
        Some(v) => has_type(f1.value_types@, v),
        None => true,
    }) by {
        assert(f1.blocks@[b] == f0.blocks@[b]);
        assert(f1.blocks@[b].instructions@[i] == f0.blocks@[b].instructions@[i]);
    }
    lemma_block_index_unique(f1.blocks@, n);
    assert forall|id: BlockId| block_index(f0.blocks@, id) < n implies block_index(
        f1.blocks@,
        id,
    ) == block_index(f0.blocks@, id) by {
        lemma_block_index(f0.blocks@, id);
        lemma_block_index(f1.blocks@, id);
        let a = block_index(f0.blocks@, id);
        let b = block_index(f1.blocks@, id);
        assert(f1.blocks@[a] == f0.blocks@[a]);
        if b < a {
            assert(f1.blocks@[b] == f0.blocks@[b]);
        }
    }
}

impl<'a> FunctionBuilder<'a> {
    /// The module builder that this function draws its identifiers from, as
    /// it stands now.
    pub open spec fn parent(&self) -> ModuleBuilder {
        *self.mb
    }

    /// The number of the next value identifier.
    pub open spec fn next_value(&self) -> u32 {
        self.parent().next_value()
    }

    /// The number of the next block identifier.
    pub open spec fn next_block(&self) -> u32 {
        self.parent().next_block()
    }

    /// The index of the block at the insertion point, or the number of blocks
    /// where no block has that identity.
    pub open spec fn cur(&self) -> int {
        block_index(self.func.blocks@, self.insert_block)
    }

    /// The insertion point names a block of the function.
    pub open spec fn has_cur(&self) -> bool {
        0 <= self.cur() < self.func.blocks@.len()
    }

    /// The block at the insertion point.
    pub open spec fn cur_block(&self) -> BasicBlock {
        self.func.blocks@[self.cur()]
    }

    /// The insertion point names a block that has no terminator yet.
    pub open spec fn can_emit(&self) -> bool {
        self.has_cur() && self.cur_block().terminator is None
    }

    /// The builder's bookkeeping holds.
    pub open spec fn wf(&self) -> bool {
        func_wf(self.func, self.next_value(), self.next_block())
    }

    /// What no operation on the function changes: the module built so far.
    pub open spec fn same_parent(&self, pre: Self) -> bool {
        self.parent().module() == pre.parent().module()
    }

    /// `self` is `pre` after `ins` was added at the end of the current block,
    /// where `ins` defines no value.
    pub open spec fn emitted(&self, pre: Self, ins: Instruction) -> bool {
        &&& self.same_parent(pre)
        &&& self.insert_block == pre.insert_block
        &&& self.next_value() == pre.next_value()
        &&& self.next_block() == pre.next_block()
        &&& self.func.value_types == pre.func.value_types
        &&& func_with_instr(
            pre.func,
            self.func,
            pre.cur(),
            pre.cur_block().instructions@.len() as int,
            ins,
        )
    }

    /// `self` is `pre` after `ins` was added to block `k` at index `at`,
    /// where `ins` defines the next fresh value, entered in the value table
    /// with the type `ty`.
    pub open spec fn defined_at(
        &self,
        pre: Self,
        k: int,
        at: int,
        ins: Instruction,
        ty: TypeV,
    ) -> bool {
        &&& self.same_parent(pre)
        &&& self.insert_block == pre.insert_block
        &&& self.next_value() == pre.next_value() + 1
        &&& self.next_block() == pre.next_block()
        &&& ins.def() == Some(ValueId(pre.next_value()))
        &&& table_with(
            pre.func.value_types@,
            self.func.value_types@,
            ValueId(pre.next_value()),
            ty,
        )
        &&& func_with_instr(pre.func, self.func, k, at, ins)
    }

    /// `self` is `pre` after `ins`, which defines the next fresh value of
    /// type `ty`, was added at the end of the current block.
    pub open spec fn emitted_def(&self, pre: Self, ins: Instruction, ty: TypeV) -> bool {
        self.defined_at(pre, pre.cur(), pre.cur_block().instructions@.len() as int, ins, ty)
    }

    /// `self` is `pre` after the current block got a terminator.
    pub open spec fn terminated(&self, pre: Self) -> bool {
        &&& self.same_parent(pre)
        &&& self.insert_block == pre.insert_block
        &&& self.next_value() == pre.next_value()
        &&& self.next_block() == pre.next_block()
        &&& func_with_terminator(pre.func, self.func, pre.cur())
    }

    /// The identity of the entry block.
    pub fn entry_block(&self) -> (r: BlockId)
        ensures
            r == self.func.entry,
    {
        self.func.entry
    }

    /// The value that stands for the parameter at `index`.
    pub fn param_value(&self, index: usize) -> (r: ValueId)
        requires
            index < self.func.params@.len(),
        ensures
            r == self.func.params@[index as int].id,
    {
        self.func.params[index].id
    }

    /// The index of the first block with the identity `id`, or the number of
    /// blocks.
    fn find_block(&self, id: BlockId) -> (k: usize)
        ensures
            k == block_index(self.func.blocks@, id),
            k <= self.func.blocks@.len(),
    {
        proof {
            lemma_block_index(self.func.blocks@, id);
        }
        let mut i: usize = 0;
        while i < self.func.blocks.len()
            invariant
                i <= self.func.blocks.len(),
                forall|j: int| 0 <= j < i ==> (#[trigger] self.func.blocks@[j]).id != id,
                0 <= block_index(self.func.blocks@, id) <= self.func.blocks@.len(),
                block_index(self.func.blocks@, id) < self.func.blocks@.len()
                    ==> self.func.blocks@[block_index(self.func.blocks@, id)].id == id,
                forall|j: int|
                    0 <= j < block_index(self.func.blocks@, id) ==> (
                    #[trigger] self.func.blocks@[j]).id != id,
            decreases self.func.blocks.len() - i,
        {
            if self.func.blocks[i].id == id {
                return i;
            }
            i += 1;
        }
        i
    }

    /// Whether the block at the insertion point has its terminator. Where the
    /// insertion point names no block, the answer is no.
    pub fn is_current_block_terminated(&self) -> (r: bool)
        ensures
            r == (self.has_cur() && self.cur_block().terminator is Some),
    {
        let k = self.find_block(self.insert_block);
        if k < self.func.blocks.len() {
            self.func.blocks[k].terminator.is_some()
        } else {
            false
        }
    }

    /// Moves the insertion point to the block `bb`.
    pub fn set_insert_point(&mut self, bb: BlockId)
        ensures
            final(self).insert_block == bb,
            final(self).func == old(self).func,
            final(self).parent() == old(self).parent(),
            *final(final(self).mb) == *final(old(self).mb),
    {
        self.insert_block = bb;
    }

    /// Issues a fresh value identifier and enters it in the value table with
    /// the type `ty`.
    fn define_value(&mut self, ty: Type) -> (id: ValueId)
        requires
            old(self).mb.next_value < u32::MAX,
        ensures
            id == ValueId(old(self).mb.next_value),
            final(self).mb.next_value == old(self).mb.next_value + 1,
            final(self).mb.next_block == old(self).mb.next_block,
            final(self).mb.module == old(self).mb.module,
            *final(final(self).mb) == *final(old(self).mb),
            final(self).insert_block == old(self).insert_block,
            final(self).func.name == old(self).func.name,
            final(self).func.params == old(self).func.params,
            final(self).func.ret_ty == old(self).func.ret_ty,
            final(self).func.entry == old(self).func.entry,
            final(self).func.blocks == old(self).func.blocks,
            final(self).func.value_types@ == old(self).func.value_types@.push((id, ty)),
    {
        let id = ValueId(self.mb.next_value);
        self.mb.next_value = self.mb.next_value + 1;
        self.func.value_types.push((id, ty));
        id
    }

    /// Adds `ins` at the end of the block at index `k`.
    fn push_instr(&mut self, k: usize, ins: Instruction)
        requires
            k < old(self).func.blocks@.len(),
        ensures
            *final(self).mb == *old(self).mb,
            *final(final(self).mb) == *final(old(self).mb),
            final(self).insert_block == old(self).insert_block,
            final(self).func.value_types == old(self).func.value_types,
            func_with_instr(
                old(self).func,
                final(self).func,
                k as int,
                old(self).func.blocks@[k as int].instructions@.len() as int,
                ins,
            ),
    {
        self.func.blocks[k].instructions.push(ins);
        assert(self.func.blocks@[k as int].instructions@
            =~= old(self).func.blocks@[k as int].instructions@.insert(
            old(self).func.blocks@[k as int].instructions@.len() as int,
            ins,
        ));
    }

    /// Adds `ins`, which defines no value, at the end of the current block.
    fn emit(&mut self, ins: Instruction)
        requires
            old(self).wf(),
            old(self).can_emit(),
            ins.def() is None,
        ensures
            final(self).wf(),
            final(self).emitted(*old(self), ins),
            *final(final(self).mb) == *final(old(self).mb),
    {
        let k = self.find_block(self.insert_block);
        self.push_instr(k, ins);
        proof {
            let f0 = old(self).func;
            assert(self.func.value_types@.subrange(0, f0.value_types@.len() as int)
                =~= f0.value_types@);
            lemma_instr_keeps_wf(
                f0,
                self.func,
                k as int,
                f0.blocks@[k as int].instructions@.len() as int,
                ins,
                self.mb.next_value,
                self.mb.next_value,
                self.mb.next_block,
            );
        }
    }

    /// Enters the next fresh value in the value table with the type
    /// `table_ty` and adds `ins`, which defines that value, to block `k` at
    /// index `at`.
    fn commit_at(&mut self, k: usize, at: usize, table_ty: Type, ins: Instruction)
        requires
            old(self).wf(),
            k < old(self).func.blocks@.len(),
            at <= old(self).func.blocks@[k as int].instructions@.len(),
            old(self).next_value() < u32::MAX,
            ins.def() == Some(ValueId(old(self).next_value())),
        ensures
            final(self).wf(),
            final(self).defined_at(*old(self), k as int, at as int, ins, table_ty@),
            *final(final(self).mb) == *final(old(self).mb),
    {
        let id = self.define_value(table_ty);
        self.func.blocks[k].instructions.insert(at, ins);
        proof {
            let f0 = old(self).func;
            let t0 = f0.value_types@;
            let t1 = self.func.value_types@;
            assert(t1.subrange(0, t0.len() as int) =~= t0);
            assert(t1.drop_last() =~= t0);
            assert(t1[t0.len() as int].0 == id);
            assert(has_type(t1, id));
            assert forall|i: int, j: int| 0 <= i < j < t1.len() implies (#[trigger] t1[i]).0 != (
            #[trigger] t1[j]).0 by {
                assert(t1[i] == t0[i]);
                if j < t0.len() {
                    assert(t1[j] == t0[j]);
                }
            }
            assert forall|j: int| 0 <= j < t1.len() implies (#[trigger] t1[j]).0.0
                < self.mb.next_value by {
                if j < t0.len() {
                    assert(t1[j] == t0[j]);
                }
            }
            lemma_instr_keeps_wf(
                f0,
                self.func,
                k as int,
                at as int,
                ins,
                old(self).mb.next_value,
                self.mb.next_value,
                self.mb.next_block,
            );
        }
    }

    /// Enters the next fresh value in the value table with the type
    /// `table_ty` and adds `ins`, which defines that value, at the end of the
    /// current block.
    fn commit(&mut self, table_ty: Type, ins: Instruction)
        requires
            old(self).wf(),
            old(self).can_emit(),
            old(self).next_value() < u32::MAX,
            ins.def() == Some(ValueId(old(self).next_value())),
        ensures
            final(self).wf(),
            final(self).emitted_def(*old(self), ins, table_ty@),
            *final(final(self).mb) == *final(old(self).mb),
    {
        let k = self.find_block(self.insert_block);
        let at = self.func.blocks[k].instructions.len();
        self.commit_at(k, at, table_ty, ins);
    }

    /// Sets the terminator of the current block.
    fn terminate(&mut self, t: Terminator)
        requires
            old(self).wf(),
            old(self).can_emit(),
        ensures
            final(self).wf(),
            final(self).terminated(*old(self)),
            final(self).func.blocks@[old(self).cur()].terminator == Some(t),
            *final(final(self).mb) == *final(old(self).mb),
    {
        let k = self.find_block(self.insert_block);
        self.func.blocks[k].terminator = Some(t);
        proof {
            lemma_terminator_keeps_wf(
                old(self).func,
                self.func,
                k as int,
                self.mb.next_value,
                self.mb.next_block,
            );
        }
    }

    /// The identifier that the next value-defining operation will issue.
    fn peek(&self) -> (id: ValueId)
        ensures
            id == ValueId(self.next_value()),
    {
        ValueId(self.mb.next_value)
    }

    /// Adds an empty block with a fresh identity at the end of the function.
    /// The insertion point stays where it is.
    pub fn create_block(&mut self, name: &str) -> (id: BlockId)
        requires
            old(self).wf(),
            old(self).next_block() < u32::MAX,
        ensures
            final(self).wf(),
            id == BlockId(old(self).next_block()),
            final(self).next_block() == old(self).next_block() + 1,
            final(self).next_value() == old(self).next_value(),
            final(self).same_parent(*old(self)),
            final(self).insert_block == old(self).insert_block,
            func_with_block(old(self).func, final(self).func, id, name@),
            block_index(final(self).func.blocks@, id) == old(self).func.blocks@.len(),
            old(self).has_cur() ==> final(self).cur() == old(self).cur(),
            *final(final(self).mb) == *final(old(self).mb),
    {
        let id = BlockId(self.mb.next_block);
        self.mb.next_block = self.mb.next_block + 1;
        self.func.blocks.push(BasicBlock::new(id, name));
        proof {
            assert(self.func.blocks@.drop_last() =~= old(self).func.blocks@);
            lemma_block_keeps_wf(
                old(self).func,
                self.func,
                name@,
                self.mb.next_value,
                old(self).mb.next_block,
            );
        }
        id
    }

    /// Materializes an undefined value of type `ty`.
    pub fn undef(&mut self, ty: Type) -> (dst: ValueId)
        requires
            old(self).wf(),
            old(self).can_emit(),
            old(self).next_value() < u32::MAX,
        ensures
            final(self).wf(),
            final(self).emitted_def(*old(self), Instruction::Undef { dst, ty }, ty@),
            *final(final(self).mb) == *final(old(self).mb),
    {
        let dst = self.peek();
        let table_ty = ty.clone();
        self.commit(table_ty, Instruction::Undef { dst, ty });
        dst
    }

    /// Materializes the boolean constant `v`.
    pub fn const_bool(&mut self, v: bool) -> (dst: ValueId)
        requires
            old(self).wf(),
            old(self).can_emit(),
            old(self).next_value() < u32::MAX,
        ensures
            final(self).wf(),
            final(self).emitted_def(
                *old(self),
                Instruction::Const { dst, ty: Type::I1, value: ConstValue::Bool(v) },
                TypeV::I1,
            ),
            *final(final(self).mb) == *final(old(self).mb),
    {
        let dst = self.peek();
        self.commit(
            Type::I1,
            Instruction::Const { dst, ty: Type::I1, value: ConstValue::Bool(v) },
        );
        dst
    }

    /// Materializes the signed 32-bit constant `v`.
    pub fn const_i32(&mut self, v: i32) -> (dst: ValueId)
        requires
            old(self).wf(),
            old(self).can_emit(),
            old(self).next_value() < u32::MAX,
        ensures
            final(self).wf(),
            final(self).emitted_def(
                *old(self),
                Instruction::Const { dst, ty: Type::I32, value: ConstValue::I(v as i128) },
                TypeV::I32,
            ),
            *final(final(self).mb) == *final(old(self).mb),
    {
        let dst = self.peek();
        self.commit(
            Type::I32,
            Instruction::Const { dst, ty: Type::I32, value: ConstValue::I(v as i128) },
        );
        dst
    }

    /// Materializes the signed constant `v` of type `ty`.
    pub fn const_int(&mut self, ty: Type, v: i128) -> (dst: ValueId)
        requires
            old(self).wf(),
            old(self).can_emit(),
            old(self).next_value() < u32::MAX,
        ensures
            final(self).wf(),
            final(self).emitted_def(
                *old(self),
                Instruction::Const { dst, ty, value: ConstValue::I(v) },
                ty@,
            ),
            *final(final(self).mb) == *final(old(self).mb),
    {
        let dst = self.peek();
        let table_ty = ty.clone();
        self.commit(table_ty, Instruction::Const { dst, ty, value: ConstValue::I(v) });
        dst
    }

    /// Materializes the unsigned constant `v` of type `ty`.
    pub fn const_uint(&mut self, ty: Type, v: u128) -> (dst: ValueId)
        requires
            old(self).wf(),
            old(self).can_emit(),
            old(self).next_value() < u32::MAX,
        ensures
            final(self).wf(),
            final(self).emitted_def(
                *old(self),
                Instruction::Const { dst, ty, value: ConstValue::U(v) },
                ty@,
            ),
            *final(final(self).mb) == *final(old(self).mb),
    {
        let dst = self.peek();
        let table_ty = ty.clone();
        self.commit(table_ty, Instruction::Const { dst, ty, value: ConstValue::U(v) });
        dst
    }

    /// Materializes the floating-point constant `v` of type `ty`.
    pub fn const_float(&mut self, ty: Type, v: FloatConst) -> (dst: ValueId)
        requires
            old(self).wf(),
            old(self).can_emit(),
            old(self).next_value() < u32::MAX,
        ensures
            final(self).wf(),
            final(self).emitted_def(
                *old(self),
                Instruction::Const { dst, ty, value: ConstValue::F(v) },
                ty@,
            ),
            *final(final(self).mb) == *final(old(self).mb),
    {
        let dst = self.peek();
        let table_ty = ty.clone();
        self.commit(table_ty, Instruction::Const { dst, ty, value: ConstValue::F(v) });
        dst
    }

    /// Adds the two values `lhs` and `rhs` of type `ty`.
    pub fn add(&mut self, ty: Type, lhs: ValueId, rhs: ValueId) -> (dst: ValueId)
        requires
            old(self).wf(),
            old(self).can_emit(),
            old(self).next_value() < u32::MAX,
        ensures
            final(self).wf(),
            final(self).emitted_def(
                *old(self),
                Instruction::Bin { dst, op: BinOp::Add, ty, lhs, rhs },
                ty@,
            ),
            *final(final(self).mb) == *final(old(self).mb),
    {
        self.bin(BinOp::Add, ty, lhs, rhs)
    }

    /// Applies the binary operation `op` to two values of type `ty`.
    pub fn bin(&mut self, op: BinOp, ty: Type, lhs: ValueId, rhs: ValueId) -> (dst: ValueId)
        requires
            old(self).wf(),
            old(self).can_emit(),
            old(self).next_value() < u32::MAX,
        ensures
            final(self).wf(),
            final(self).emitted_def(*old(self), Instruction::Bin { dst, op, ty, lhs, rhs }, ty@),
            *final(final(self).mb) == *final(old(self).mb),
    {
        let dst = self.peek();
        let table_ty = ty.clone();
        self.commit(table_ty, Instruction::Bin { dst, op, ty, lhs, rhs });
        dst
    }

    /// Compares two integers of type `ty` by the predicate `pred`; the result
    /// is a boolean.
    pub fn icmp(&mut self, pred: ICmpPred, ty: Type, lhs: ValueId, rhs: ValueId) -> (dst: ValueId)
        requires
            old(self).wf(),
            old(self).can_emit(),
            old(self).next_value() < u32::MAX,
        ensures
            final(self).wf(),
            final(self).emitted_def(
                *old(self),
                Instruction::ICmp { dst, pred, ty, lhs, rhs },
                TypeV::I1,
            ),
            *final(final(self).mb) == *final(old(self).mb),
    {
        let dst = self.peek();
        self.commit(Type::I1, Instruction::ICmp { dst, pred, ty, lhs, rhs });
        dst
    }

    /// Compares two values of type `ty` by `op`; the result is a boolean.
    pub fn cmp(&mut self, op: CmpOp, ty: Type, lhs: ValueId, rhs: ValueId) -> (dst: ValueId)
        requires
            old(self).wf(),
            old(self).can_emit(),
            old(self).next_value() < u32::MAX,
        ensures
            final(self).wf(),
            final(self).emitted_def(
                *old(self),
                Instruction::Cmp { dst, op, ty, lhs, rhs },
                TypeV::I1,
            ),
            *final(final(self).mb) == *final(old(self).mb),
    {
        let dst = self.peek();
        self.commit(Type::I1, Instruction::Cmp { dst, op, ty, lhs, rhs });
        dst
    }

    /// Applies the checked operation `op` to two values of type `ty`; the
    /// result is the pair of the value and the overflow flag.
    pub fn checked(&mut self, op: CheckedOp, ty: Type, lhs: ValueId, rhs: ValueId) -> (dst: ValueId)
        requires
            old(self).wf(),
            old(self).can_emit(),
            old(self).next_value() < u32::MAX,
        ensures
            final(self).wf(),
            final(self).emitted_def(
                *old(self),
                Instruction::Checked { dst, op, ty, lhs, rhs },
                TypeV::Tuple(seq![ty@, TypeV::I1]),
            ),
            *final(final(self).mb) == *final(old(self).mb),
    {
        let dst = self.peek();
        let mut parts: Vec<Type> = Vec::new();
        parts.push(ty.clone());
        parts.push(Type::I1);
        proof {
            crate::ir::types::lemma_types_view(parts@);
            assert(crate::ir::types::types_view(parts@) =~= seq![ty@, TypeV::I1]);
        }
        self.commit(Type::Tuple(parts), Instruction::Checked { dst, op, ty, lhs, rhs });
        dst
    }

    /// Takes the component at `index` out of the tuple value `tuple`. The
    /// type of the tuple is not recorded.
    pub fn extract(&mut self, tuple_ty: Type, dst_ty: Type, tuple: ValueId, index: u32) -> (dst:
        ValueId)
        requires
            old(self).wf(),
            old(self).can_emit(),
            old(self).next_value() < u32::MAX,
        ensures
            final(self).wf(),
            final(self).emitted_def(
                *old(self),
                Instruction::Extract { dst, dst_ty, tuple, index },
                dst_ty@,
            ),
            *final(final(self).mb) == *final(old(self).mb),
    {
        let dst = self.peek();
        let table_ty = dst_ty.clone();
        self.commit(table_ty, Instruction::Extract { dst, dst_ty, tuple, index });
        dst
    }

    /// Allocates a stack slot for a value of type `ty` at the insertion
    /// point; the result is a pointer to the slot.
    pub fn alloca(&mut self, ty: Type, align: u32) -> (dst: ValueId)
        requires
            old(self).wf(),
            old(self).can_emit(),
            old(self).next_value() < u32::MAX,
        ensures
            final(self).wf(),
            final(self).emitted_def(
                *old(self),
                Instruction::Alloca { dst, ty, align },
                TypeV::Ptr(Box::new(ty@)),
            ),
            *final(final(self).mb) == *final(old(self).mb),
    {
        let dst = self.peek();
        let table_ty = Type::Ptr(Box::new(ty.clone()));
        self.commit(table_ty, Instruction::Alloca { dst, ty, align });
        dst
    }

    /// Allocates a stack slot for a value of type `ty` in the entry block,
    /// before the first instruction there that is no stack allocation, so
    /// that all hoisted slots stand together at the top of the function. The
    /// insertion point plays no part.
    pub fn alloca_in_entry(&mut self, ty: Type, align: u32) -> (dst: ValueId)
        requires
            old(self).wf(),
            old(self).next_value() < u32::MAX,
        ensures
            final(self).wf(),
            final(self).defined_at(
                *old(self),
                0,
                alloca_prefix(old(self).func.blocks@[0].instructions@),
                Instruction::Alloca { dst, ty, align },
                TypeV::Ptr(Box::new(ty@)),
            ),
            *final(final(self).mb) == *final(old(self).mb),
    {
        let dst = self.peek();
        let table_ty = Type::Ptr(Box::new(ty.clone()));
        let k = self.find_block(self.func.entry);
        let pos = self.first_non_alloca(k);
        self.commit_at(k, pos, table_ty, Instruction::Alloca { dst, ty, align });
        dst
    }

    /// The index of the first instruction of block `k` that is no stack
    /// allocation, or the number of its instructions.
    fn first_non_alloca(&self, k: usize) -> (pos: usize)
        requires
            k < self.func.blocks@.len(),
        ensures
            pos == alloca_prefix(self.func.blocks@[k as int].instructions@),
            pos <= self.func.blocks@[k as int].instructions@.len(),
    {
        let instrs = &self.func.blocks[k].instructions;
        proof {
            lemma_alloca_prefix(instrs@);
        }
        let mut i: usize = 0;
        while i < instrs.len()
            invariant
                i <= instrs.len(),
                k < self.func.blocks@.len(),
                instrs@ == self.func.blocks@[k as int].instructions@,
                forall|j: int| 0 <= j < i ==> (#[trigger] instrs@[j]) is Alloca,
                0 <= alloca_prefix(instrs@) <= instrs@.len(),
                alloca_prefix(instrs@) < instrs@.len() ==> !(instrs@[alloca_prefix(
                    instrs@,
                )] is Alloca),
                forall|j: int| 0 <= j < alloca_prefix(instrs@)
                    ==> (#[trigger] instrs@[j]) is Alloca,
            decreases instrs.len() - i,
        {
            if !matches!(instrs[i], Instruction::Alloca { .. }) {
                return i;
            }
            i += 1;
        }
        i
    }

    /// Loads a value of type `ty` through the pointer `ptr`.
    pub fn load(&mut self, ty: Type, ptr: ValueId, align: u32) -> (dst: ValueId)
        requires
            old(self).wf(),
            old(self).can_emit(),
            old(self).next_value() < u32::MAX,
        ensures
            final(self).wf(),
            final(self).emitted_def(*old(self), Instruction::Load { dst, ty, ptr, align }, ty@),
            *final(final(self).mb) == *final(old(self).mb),
    {
        let dst = self.peek();
        let table_ty = ty.clone();
        self.commit(table_ty, Instruction::Load { dst, ty, ptr, align });
        dst
    }

    /// Stores `value` of type `ty` through the pointer `ptr`.
    pub fn store(&mut self, ty: Type, value: ValueId, ptr: ValueId, align: u32)
        requires
            old(self).wf(),
            old(self).can_emit(),
        ensures
            final(self).wf(),
            final(self).emitted(*old(self), Instruction::Store { ty, value, ptr, align }),
            *final(final(self).mb) == *final(old(self).mb),
    {
        self.emit(Instruction::Store { ty, value, ptr, align });
    }

    /// Traps at run time where `cond` holds.
    pub fn trap_if(&mut self, cond: ValueId, reason: &str)
        requires
            old(self).wf(),
            old(self).can_emit(),
        ensures
            final(self).wf(),
            exists|r: String|
                r@ == reason@ && #[trigger] final(self).emitted(
                    *old(self),
                    Instruction::TrapIf { cond, reason: r },
                ),
            *final(final(self).mb) == *final(old(self).mb),
    {
        let r = reason.to_owned();
        self.emit(Instruction::TrapIf { cond, reason: r });
    }

    /// Calls `callee` with `args`. A call whose return type is `void`
    /// defines no value; any other defines a fresh one of that type.
    pub fn call(&mut self, ret_ty: Type, callee: Callee, args: Vec<ValueId>) -> (dst: Option<
        ValueId,
    >)
        requires
            old(self).wf(),
            old(self).can_emit(),
            old(self).next_value() < u32::MAX,
        ensures
            final(self).wf(),
            dst is None <==> ret_ty@ == TypeV::Void,
            ret_ty@ == TypeV::Void ==> final(self).emitted(
                *old(self),
                Instruction::Call { dst: None, ret_ty, callee, args },
            ),
            ret_ty@ != TypeV::Void ==> final(self).emitted_def(
                *old(self),
                Instruction::Call { dst, ret_ty, callee, args },
                ret_ty@,
            ),
            *final(final(self).mb) == *final(old(self).mb),
    {
        if matches!(ret_ty, Type::Void) {
            self.emit(Instruction::Call { dst: None, ret_ty, callee, args });
            None
        } else {
            let dst = self.peek();
            let table_ty = ret_ty.clone();
            self.commit(table_ty, Instruction::Call { dst: Some(dst), ret_ty, callee, args });
            Some(dst)
        }
    }

    /// Ends the current block with a branch to `target`.
    pub fn br(&mut self, target: BlockId)
        requires
            old(self).wf(),
            old(self).can_emit(),
        ensures
            final(self).wf(),
            final(self).terminated(*old(self)),
            final(self).func.blocks@[old(self).cur()].terminator == Some(
                Terminator::Br { target },
            ),
            *final(final(self).mb) == *final(old(self).mb),
    {
        self.terminate(Terminator::Br { target });
    }

    /// Ends the current block with a branch to `then_bb` where `cond` holds
    /// and to `else_bb` where it does not.
    pub fn cbr(&mut self, cond: ValueId, then_bb: BlockId, else_bb: BlockId)
        requires
            old(self).wf(),
            old(self).can_emit(),
        ensures
            final(self).wf(),
            final(self).terminated(*old(self)),
            final(self).func.blocks@[old(self).cur()].terminator == Some(
                Terminator::CBr { cond, then_bb, else_bb },
            ),
            *final(final(self).mb) == *final(old(self).mb),
    {
        self.terminate(Terminator::CBr { cond, then_bb, else_bb });
    }

    /// Ends the current block with a return of `value`, stated with the
    /// function's return type.
    pub fn ret(&mut self, value: Option<ValueId>)
        requires
            old(self).wf(),
            old(self).can_emit(),
        ensures
            final(self).wf(),
            final(self).terminated(*old(self)),
            final(self).func.blocks@[old(self).cur()].terminator matches Some(
                Terminator::Ret { ty, value: v },
            ) && ty@ == old(self).func.ret_ty@ && v == value,
            *final(final(self).mb) == *final(old(self).mb),
    {
        let ty = self.func.ret_ty.clone();
        self.terminate(Terminator::Ret { ty, value });
    }

    /// Ends the current block with an abnormal stop.
    pub fn trap(&mut self, reason: &str)
        requires
            old(self).wf(),
            old(self).can_emit(),
        ensures
            final(self).wf(),
            final(self).terminated(*old(self)),
            final(self).func.blocks@[old(self).cur()].terminator matches Some(
                Terminator::Trap { reason: r },
            ) && r@ == reason@,
            *final(final(self).mb) == *final(old(self).mb),
    {
        self.terminate(Terminator::Trap { reason: reason.to_owned() });
    }

    /// Hands the function over to the module: it becomes the module's last
    /// function.
    pub fn finish(self)
        ensures
            final(self.mb).module().functions@ == old(self.mb).module().functions@.push(self.func),
            final(self.mb).module().target == old(self.mb).module().target,
            final(self.mb).module().datalayout == old(self.mb).module().datalayout,
            final(self.mb).module().globals == old(self.mb).module().globals,
            final(self.mb).next_value() == old(self.mb).next_value(),
            final(self.mb).next_block() == old(self.mb).next_block(),
    {
        self.mb.module.functions.push(self.func);
    }
}

} // verus!
