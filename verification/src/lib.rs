//! A minimal evaluator for a concatenative, stack-based language in the
//! style of Joy: a program is a sequence of values, and executing a value
//! either pushes it onto the data stack or, if it names an operation,
//! transforms the stack. Quotations — programs held as inert data — let
//! control flow such as conditional branching be expressed as ordinary
//! stack operations.
use vstd::prelude::*;

pub mod builder;
pub mod eval;
pub mod prims;
pub mod semantics;
pub mod value;

verus! {

pub use crate::builder::Form;
pub use crate::builder::build_program;
pub use crate::builder::build_value;
pub use crate::builder::define_op;
pub use crate::builder::eval_forms;
pub use crate::eval::apply;
pub use crate::eval::ite;
pub use crate::eval::meta_apply;
pub use crate::prims::add;
pub use crate::prims::cmp;
pub use crate::prims::copy;
pub use crate::prims::debug;
pub use crate::prims::id;
pub use crate::prims::pop;
pub use crate::prims::pop_slice;
pub use crate::prims::unquote;
pub use crate::value::AbsOp;
pub use crate::value::AbsVal;
pub use crate::value::JoyStack;
pub use crate::value::JoyValue;
pub use crate::value::Op;
pub use crate::value::abs_of;
pub use crate::value::abs_op;
pub use crate::value::abs_seq;
pub use crate::value::clone_value;
pub use crate::value::clone_values;

} // verus!
