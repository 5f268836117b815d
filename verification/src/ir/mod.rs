//! The intermediate representation: types, identifiers, instructions, the
//! containers that own them, and the passes that build, check and print them.

pub mod block;
pub mod builder;
pub mod function;
pub mod instr;
pub mod lower_ast;
pub mod module;
pub mod printer;
pub mod text;
pub mod types;
pub mod value;
pub mod verify;
pub mod view;

pub use block::BasicBlock;
pub use function::{Function, Param};
pub use instr::{
    BinOp, Callee, CastOp, CheckedOp, CmpOp, ConstValue, FCmpPred, FloatConst, ICmpPred,
    Instruction, Terminator,
};
pub use module::{Global, Module};
pub use types::{DataLayout, Endian, Type, TypeV};
pub use value::{BlockId, ValueId};
pub use verify::{verify_module, VerifyError};
pub use builder::{FunctionBuilder, ModuleBuilder};
pub use lower_ast::{lower_o0, lower_o0_with, FloatFold, LowerError};
pub use printer::print_module;
