//! The program builder: turns a literal, structured description of a
//! program — integers, operation names, injected host values, bracketed
//! sub-programs — into the value representation the evaluator consumes.
//! A composite operation is defined the same way: its built body is
//! captured, and running the resulting reference runs that body against
//! whatever stack is supplied at call time.
use crate::semantics::eval_outcome;
use crate::value::AbsOp;
use crate::value::AbsVal;
use crate::value::JoyStack;
use crate::value::JoyValue;
use crate::value::Op;
use crate::value::abs_of;
use crate::value::abs_op;
use crate::value::abs_seq;
use crate::value::clone_op;
use vstd::prelude::*;

verus! {

broadcast use crate::value::group_abs_lemmas;

/// One element of a literal program description, in its four syntactic
/// forms.
#[derive(Debug, PartialEq, Eq, Hash)]
pub enum Form {
    /// A bare integer literal, to become a `Num`.
    Lit(i64),
    /// A bare name referring to a known operation — a built-in, or a
    /// composite defined the same way — to become a `Primitive`.
    Name(Op),
    /// A host expression already evaluated in the host context, injected
    /// through the numeric conversion into a `Num`.
    Host(i64),
    /// A bracketed sequence of sub-forms, built recursively into a
    /// `Quote`.
    List(Vec<Form>),
}

/// The value a single form describes.
pub open spec fn form_val(f: Form) -> AbsVal
    decreases f, 1int,
    via form_val_dec
{
    match f {
        Form::Lit(n) => AbsVal::Num(n as int),
        Form::Name(op) => AbsVal::Primitive(abs_op(op)),
        Form::Host(n) => AbsVal::Num(n as int),
        Form::List(fs) => AbsVal::Quote(form_seq(fs@)),
    }
}

/// The program a sequence of forms describes.
pub open spec fn form_seq(fs: Seq<Form>) -> Seq<AbsVal>
    decreases fs, 2int,
{
    if fs.len() == 0 {
        Seq::empty()
    } else {
        seq![form_val(fs[0])] + form_seq(fs.drop_first())
    }
}

#[via_fn]
proof fn form_val_dec(f: Form) {
    match f {
        Form::List(fs) => {
            assert(decreases_to!(f => fs));
            assert(decreases_to!(fs => fs@));
        },
        _ => {
        },
    }
}

pub broadcast proof fn form_seq_len(fs: Seq<Form>)
    ensures
        #[trigger] form_seq(fs).len() == fs.len(),
    decreases fs.len(),
{
    if fs.len() > 0 {
        form_seq_len(fs.drop_first());
    }
}

pub broadcast proof fn form_seq_index(fs: Seq<Form>, i: int)
    requires
        0 <= i < fs.len(),
    ensures
        #[trigger] form_seq(fs)[i] == form_val(fs[i]),
    decreases fs.len(),
{
    broadcast use form_seq_len;

    if i > 0 {
        form_seq_index(fs.drop_first(), i - 1);
    }
}

/// Builds the value a single form describes.
pub fn build_value(f: &Form) -> (r: JoyValue)
    ensures
        abs_of(r) == form_val(*f),
    decreases *f, 1int,
{
    match f {
        Form::Lit(n) => JoyValue::from(*n),
        Form::Name(op) => JoyValue::Primitive(clone_op(op)),
        Form::Host(n) => JoyValue::from(*n),
        Form::List(fs) => {
            proof {
                assert(decreases_to!(*f => f->List_0));
                assert(f->List_0 == *fs);
            }
            JoyValue::Quote(build_program(fs))
        },
    }
}

/// Builds the program a sequence of forms describes.
pub fn build_program(fs: &Vec<Form>) -> (r: Vec<JoyValue>)
    ensures
        abs_seq(r@) == form_seq(fs@),
    decreases *fs, 2int,
{
    let mut out: Vec<JoyValue> = Vec::new();
    let mut i: usize = 0;
    while i < fs.len()
        invariant
            i <= fs@.len(),
            out@.len() == i,
            forall|j: int| 0 <= j < i ==> abs_of(out@[j]) == form_val(fs@[j]),
        decreases fs@.len() - i,
    {
        proof {
            assert(decreases_to!(*fs => fs@));
            assert(decreases_to!(fs@ => fs@[i as int]));
        }
        out.push(build_value(&fs[i]));
        i += 1;
    }
    proof {
        broadcast use form_seq_len, form_seq_index;

        assert(abs_seq(out@) =~= form_seq(fs@));
    }
    out
}

/// The construction entry point: builds the described program and
/// evaluates it against the supplied initial stack, returning the
/// resulting stack.
pub fn eval_forms(forms: &Vec<Form>, stack: JoyStack) -> (r: JoyStack)
    ensures
        eval_outcome(form_seq(forms@), abs_seq(stack@), abs_seq(r@)),
{
    let program = build_program(forms);
    crate::eval::meta_apply(program, stack)
}

/// Defines a composite operation: the described body is built once and
/// captured, and the returned reference can stand in programs like any
/// built-in.
pub fn define_op(body: &Vec<Form>) -> (r: Op)
    ensures
        abs_op(r) == AbsOp::Defined(form_seq(body@)),
{
    Op::Defined(build_program(body))
}

} // verus!
