//! Functions and their parameters.

use vstd::prelude::*;
use crate::ir::block::BasicBlock;
use crate::ir::types::Type;
use crate::ir::value::{BlockId, ValueId};

verus! {

/// A parameter: its name, the value that stands for it and its type.
#[derive(Debug)]
pub struct Param {
    pub name: String,
    pub id: ValueId,
    pub ty: Type,
}

/// A function in control-flow-graph form. `value_types` maps every value that
/// the function defines to its type.
#[derive(Debug)]
pub struct Function {
    pub name: String,
    pub params: Vec<Param>,
    pub ret_ty: Type,
    pub blocks: Vec<BasicBlock>,
    pub entry: BlockId,
    pub value_types: Vec<(ValueId, Type)>,
}

/// The index of the first entry of `table` for `id`, or the length of
/// `table` where there is none.
pub open spec fn type_entry(table: Seq<(ValueId, Type)>, id: ValueId) -> int
    decreases table.len(),
{
    if table.len() == 0 {
        0
    } else if table[0].0 == id {
        0
    } else {
        1 + type_entry(table.subrange(1, table.len() as int), id)
    }
}

/// `type_entry` finds the least index with the wanted key.
pub proof fn lemma_type_entry(table: Seq<(ValueId, Type)>, id: ValueId)
    ensures
        0 <= type_entry(table, id) <= table.len(),
        type_entry(table, id) < table.len() ==> table[type_entry(table, id)].0 == id,
        forall|k: int| 0 <= k < type_entry(table, id) ==> (#[trigger] table[k]).0 != id,
    decreases table.len(),
{
    if table.len() > 0 && table[0].0 != id {
        let rest = table.subrange(1, table.len() as int);
        lemma_type_entry(rest, id);
        assert forall|k: int| 0 <= k < type_entry(table, id) implies (#[trigger] table[k]).0
            != id by {
            if k > 0 {
                assert(table[k] == rest[k - 1]);
            }
        }
    }
}

impl Function {
    /// The recorded type of the value `id`: that of the first entry of the
    /// table for it.
    pub open spec fn spec_value_type(self, id: ValueId) -> Option<Type> {
        let k = type_entry(self.value_types@, id);
        if k < self.value_types@.len() {
            Some(self.value_types@[k].1)
        } else {
            None
        }
    }

    /// Looks up the type of a value in the function's table.
    pub fn value_type(&self, id: ValueId) -> (r: Option<&Type>)
        ensures
            match r {
                Some(t) => self.spec_value_type(id) == Some(*t),
                None => self.spec_value_type(id) is None,
            },
    {
        proof {
            lemma_type_entry(self.value_types@, id);
        }
        let mut i: usize = 0;
        while i < self.value_types.len()
            invariant
                i <= self.value_types.len(),
                forall|k: int| 0 <= k < i ==> (#[trigger] self.value_types@[k]).0 != id,
                0 <= type_entry(self.value_types@, id) <= self.value_types@.len(),
                type_entry(self.value_types@, id) < self.value_types@.len()
                    ==> self.value_types@[type_entry(self.value_types@, id)].0 == id,
                forall|k: int|
                    0 <= k < type_entry(self.value_types@, id) ==> (
                    #[trigger] self.value_types@[k]).0 != id,
            decreases self.value_types.len() - i,
        {
            if self.value_types[i].0 == id {
                return Some(&self.value_types[i].1);
            }
            i += 1;
        }
        None
    }
}

} // verus!
