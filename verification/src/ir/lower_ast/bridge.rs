//! From the builder to the model: what each operation of the builder does
//! to the mathematical value of the function under construction.

use vstd::prelude::*;
use crate::ir::block::BasicBlock;
use crate::ir::builder::{
    alloca_prefix, block_index, func_with_block, func_with_instr, FunctionBuilder, table_with,
};
use crate::ir::function::Function;
use crate::ir::instr::{Instruction, Terminator};
use crate::ir::lower_ast::model::{
    at, Build, cur, define, emit, emit_def, ended, hoist, index_of, new_block, prefix_len,
    terminate, with_instr,
};
use crate::ir::types::{Type, TypeV};
use crate::ir::value::{BlockId, ValueId};
use crate::ir::view::{blocks_view, instrs_view, InstrV};

verus! {

/// The function under construction as the model sees it.
pub open spec fn build_of(fb: FunctionBuilder) -> Build {
    Build {
        func: fb.func@,
        insert: fb.insert_block,
        next_value: fb.next_value(),
        next_block: fb.next_block(),
    }
}

/// The index of a block is the same for the blocks and for their values.
pub proof fn lemma_index_of(blocks: Seq<BasicBlock>, id: BlockId)
    ensures
        index_of(blocks_view(blocks), id) == block_index(blocks, id),
    decreases blocks.len(),
{
    if blocks.len() > 0 && blocks[0].id != id {
        let rest = blocks.subrange(1, blocks.len() as int);
        lemma_index_of(rest, id);
        assert(blocks_view(rest) =~= blocks_view(blocks).subrange(1, blocks.len() as int));
    }
}

/// The run of stack allocations at the start is as long for the
/// instructions as for their values.
pub proof fn lemma_prefix_len(instrs: Seq<Instruction>)
    ensures
        prefix_len(instrs_view(instrs)) == alloca_prefix(instrs),
    decreases instrs.len(),
{
    if instrs.len() > 0 && instrs[0] is Alloca {
        let rest = instrs.subrange(1, instrs.len() as int);
        lemma_prefix_len(rest);
        assert(instrs_view(rest) =~= instrs_view(instrs).subrange(1, instrs.len() as int));
    }
}

/// The model and the builder agree on the current block and on whether it
/// has ended.
pub proof fn lemma_cur(fb: FunctionBuilder)
    ensures
        cur(build_of(fb)) == fb.cur(),
        ended(build_of(fb)) == (fb.has_cur() && fb.cur_block().terminator is Some),
{
    lemma_index_of(fb.func.blocks@, fb.insert_block);
}

/// The value of a function with one more instruction.
pub proof fn lemma_with_instr(f0: Function, f1: Function, k: int, at: int, ins: Instruction)
    requires
        func_with_instr(f0, f1, k, at, ins),
        0 <= at <= f0.blocks@[k].instructions@.len(),
    ensures
        f1@.blocks == with_instr(f0@, k, at, ins@).blocks,
        f1@.name == f0@.name,
        f1@.params == f0@.params,
        f1@.ret_ty == f0@.ret_ty,
        f1@.entry == f0@.entry,
{
    reveal(with_instr);
    let s0 = f0.blocks@[k].instructions@;
    let s1 = f1.blocks@[k].instructions@;
    assert(instrs_view(s1) =~= instrs_view(s0).insert(at, ins@));
    assert forall|j: int| 0 <= j < f0.blocks@.len() implies #[trigger] blocks_view(
        f1.blocks@,
    )[j] == with_instr(f0@, k, at, ins@).blocks[j] by {
        if j != k {
            assert(f1.blocks@[j] == f0.blocks@[j]);
        }
    }
    assert(blocks_view(f1.blocks@) =~= with_instr(f0@, k, at, ins@).blocks);
}

/// The value of a value table with one more entry.
pub proof fn lemma_table(t0: Seq<(ValueId, Type)>, t1: Seq<(ValueId, Type)>, id: ValueId, ty: TypeV)
    requires
        table_with(t0, t1, id, ty),
    ensures
        Seq::new(t1.len(), |i: int| (t1[i].0, t1[i].1@)) == Seq::new(
            t0.len(),
            |i: int| (t0[i].0, t0[i].1@),
        ).push((id, ty)),
{
    assert forall|i: int| 0 <= i < t0.len() implies t1[i] == t0[i] by {
        assert(t1.drop_last()[i] == t1[i]);
    }
    assert(Seq::new(t1.len(), |i: int| (t1[i].0, t1[i].1@)) =~= Seq::new(
        t0.len(),
        |i: int| (t0[i].0, t0[i].1@),
    ).push((id, ty)));
}

/// Adding an instruction that defines nothing is `emit`.
pub proof fn lemma_emitted(pre: FunctionBuilder, post: FunctionBuilder, ins: Instruction)
    requires
        pre.has_cur(),
        post.emitted(pre, ins),
    ensures
        build_of(post) == emit(build_of(pre), ins@),
{
    reveal(emit);
    reveal(with_instr);
    lemma_cur(pre);
    lemma_with_instr(
        pre.func,
        post.func,
        pre.cur(),
        pre.cur_block().instructions@.len() as int,
        ins,
    );
    assert(post.func@.value_types =~= pre.func@.value_types);
    assert(instrs_view(pre.cur_block().instructions@).len()
        == pre.cur_block().instructions@.len());
}

/// Adding an instruction that defines the next value is `define` and an
/// instruction added to the block.
pub proof fn lemma_defined_at(
    pre: FunctionBuilder,
    post: FunctionBuilder,
    k: int,
    at: int,
    ins: Instruction,
    ty: TypeV,
)
    requires
        post.defined_at(pre, k, at, ins, ty),
        0 <= at <= pre.func.blocks@[k].instructions@.len(),
    ensures
        build_of(post) == (Build {
            func: with_instr(define(build_of(pre), ty).func, k, at, ins@),
            ..define(build_of(pre), ty)
        }),
{
    reveal(define);
    reveal(with_instr);
    lemma_with_instr(pre.func, post.func, k, at, ins);
    lemma_table(pre.func.value_types@, post.func.value_types@, ValueId(pre.next_value()), ty);
}

/// Adding an instruction that defines the next value at the end of the
/// current block is `emit_def`.
pub proof fn lemma_emitted_def(
    pre: FunctionBuilder,
    post: FunctionBuilder,
    ins: Instruction,
    ty: TypeV,
)
    requires
        pre.has_cur(),
        post.emitted_def(pre, ins, ty),
    ensures
        build_of(post) == emit_def(build_of(pre), ins@, ty),
{
    reveal(emit);
    reveal(define);
    reveal(with_instr);
    lemma_cur(pre);
    lemma_defined_at(
        pre,
        post,
        pre.cur(),
        pre.cur_block().instructions@.len() as int,
        ins,
        ty,
    );
    let d = define(build_of(pre), ty);
    assert(cur(d) == cur(build_of(pre)));
    assert(instrs_view(pre.cur_block().instructions@).len()
        == pre.cur_block().instructions@.len());
}

/// Allocating a slot at the top of the entry block is `hoist`.
pub proof fn lemma_hoisted(
    pre: FunctionBuilder,
    post: FunctionBuilder,
    ins: Instruction,
    ty: TypeV,
    align: u32,
)
    requires
        pre.func.blocks@.len() >= 1,
        post.defined_at(
            pre,
            0,
            alloca_prefix(pre.func.blocks@[0].instructions@),
            ins,
            TypeV::Ptr(Box::new(ty)),
        ),
        ins@ == (InstrV::Alloca { dst: ValueId(pre.next_value()), ty, align }),
    ensures
        build_of(post) == hoist(build_of(pre), ty, align),
{
    reveal(hoist);
    reveal(define);
    reveal(with_instr);
    crate::ir::builder::lemma_alloca_prefix(pre.func.blocks@[0].instructions@);
    lemma_prefix_len(pre.func.blocks@[0].instructions@);
    lemma_defined_at(
        pre,
        post,
        0,
        alloca_prefix(pre.func.blocks@[0].instructions@),
        ins,
        TypeV::Ptr(Box::new(ty)),
    );
}

/// Setting the terminator of the current block is `terminate`.
pub proof fn lemma_terminated(pre: FunctionBuilder, post: FunctionBuilder, t: Terminator)
    requires
        pre.has_cur(),
        post.terminated(pre),
        post.func.blocks@[pre.cur()].terminator == Some(t),
    ensures
        build_of(post) == terminate(build_of(pre), t@),
{
    reveal(terminate);
    lemma_cur(pre);
    let k = pre.cur();
    assert forall|j: int| 0 <= j < pre.func.blocks@.len() implies #[trigger] blocks_view(
        post.func.blocks@,
    )[j] == terminate(build_of(pre), t@).func.blocks[j] by {
        if j != k {
            assert(post.func.blocks@[j] == pre.func.blocks@[j]);
        }
    }
    assert(blocks_view(post.func.blocks@) =~= terminate(build_of(pre), t@).func.blocks);
    assert(post.func@.value_types =~= pre.func@.value_types);
}

/// Adding a block is `new_block`.
pub proof fn lemma_block_added(pre: FunctionBuilder, post: FunctionBuilder, name: Seq<char>)
    requires
        func_with_block(pre.func, post.func, BlockId(pre.next_block()), name),
        post.insert_block == pre.insert_block,
        post.next_value() == pre.next_value(),
        post.next_block() == pre.next_block() + 1,
    ensures
        build_of(post) == new_block(build_of(pre), name),
{
    reveal(new_block);
    let n = pre.func.blocks@.len() as int;
    assert forall|j: int| 0 <= j < n implies #[trigger] post.func.blocks@[j]
        == pre.func.blocks@[j] by {
        assert(post.func.blocks@.drop_last()[j] == post.func.blocks@[j]);
    }
    assert(instrs_view(post.func.blocks@[n].instructions@) =~= Seq::<InstrV>::empty());
    assert(blocks_view(post.func.blocks@) =~= new_block(build_of(pre), name).func.blocks);
    assert(post.func@.value_types =~= pre.func@.value_types);
}

} // verus!
