//! The value model: stack-resident values, the operations they can name,
//! and the mathematical abstraction both are reasoned about through.
use vstd::prelude::*;

verus! {

broadcast use vstd::std_specs::vec::group_vec_axioms;

/// A built-in operation, or a composite one captured as a fixed program.
/// Every operation is a pure transformation of a stack of values; the
/// closed tag set gives each one a stable identity for equality purposes.
#[derive(Debug, PartialEq, Eq, PartialOrd, Ord, Hash)]
pub enum Op {
    Pop,
    Copy,
    Unquote,
    Debug,
    Id,
    Cmp,
    Add,
    Apply,
    Ite,
    /// A user-defined operation: running it runs the captured program
    /// against whatever stack is supplied at call time.
    Defined(Vec<JoyValue>),
}

/// A value that can live on the data stack or inside a program: a signed
/// fixed-width integer, a reference to an operation, or a quotation — a
/// program held as inert data until explicitly run.
#[derive(Debug, PartialEq, Eq, PartialOrd, Ord, Hash)]
pub enum JoyValue {
    Num(i64),
    Primitive(Op),
    Quote(Vec<JoyValue>),
}

/// The data stack: an ordered sequence of values, operated on at its end.
pub type JoyStack = Vec<JoyValue>;

/// The mathematical counterpart of `Op`.
pub enum AbsOp {
    Pop,
    Copy,
    Unquote,
    Debug,
    Id,
    Cmp,
    Add,
    Apply,
    Ite,
    Defined(Seq<AbsVal>),
}

/// The mathematical counterpart of `JoyValue`: integers are unbounded and
/// sequences replace vectors, so equality is plain structural equality.
pub enum AbsVal {
    Num(int),
    Primitive(AbsOp),
    Quote(Seq<AbsVal>),
}

/// The abstraction of a single value.
pub open spec fn abs_of(v: JoyValue) -> AbsVal
    decreases v, 1int,
    via abs_of_dec
{
    match v {
        JoyValue::Num(n) => AbsVal::Num(n as int),
        JoyValue::Primitive(op) => AbsVal::Primitive(abs_op(op)),
        JoyValue::Quote(q) => AbsVal::Quote(abs_seq(q@)),
    }
}

/// The abstraction of an operation.
pub open spec fn abs_op(op: Op) -> AbsOp
    decreases op, 1int,
    via abs_op_dec
{
    match op {
        Op::Pop => AbsOp::Pop,
        Op::Copy => AbsOp::Copy,
        Op::Unquote => AbsOp::Unquote,
        Op::Debug => AbsOp::Debug,
        Op::Id => AbsOp::Id,
        Op::Cmp => AbsOp::Cmp,
        Op::Add => AbsOp::Add,
        Op::Apply => AbsOp::Apply,
        Op::Ite => AbsOp::Ite,
        Op::Defined(body) => AbsOp::Defined(abs_seq(body@)),
    }
}

/// The elementwise abstraction of a sequence of values.
pub open spec fn abs_seq(s: Seq<JoyValue>) -> Seq<AbsVal>
    decreases s, 2int,
{
    if s.len() == 0 {
        Seq::empty()
    } else {
        seq![abs_of(s[0])] + abs_seq(s.drop_first())
    }
}

#[via_fn]
proof fn abs_of_dec(v: JoyValue) {
    match v {
        JoyValue::Quote(q) => {
            assert(decreases_to!(v => q));
            assert(decreases_to!(q => q@));
        },
        _ => {
        },
    }
}

#[via_fn]
proof fn abs_op_dec(op: Op) {
    match op {
        Op::Defined(body) => {
            assert(decreases_to!(op => body));
            assert(decreases_to!(body => body@));
        },
        _ => {
        },
    }
}

pub broadcast proof fn abs_seq_len(s: Seq<JoyValue>)
    ensures
        #[trigger] abs_seq(s).len() == s.len(),
    decreases s.len(),
{
    if s.len() > 0 {
        abs_seq_len(s.drop_first());
    }
}

pub broadcast proof fn abs_seq_index(s: Seq<JoyValue>, i: int)
    requires
        0 <= i < s.len(),
    ensures
        #[trigger] abs_seq(s)[i] == abs_of(s[i]),
    decreases s.len(),
{
    broadcast use abs_seq_len;

    if i > 0 {
        abs_seq_index(s.drop_first(), i - 1);
    }
}

pub broadcast group group_abs_seq {
    abs_seq_len,
    abs_seq_index,
}

/// Abstraction commutes with appending one value.
pub broadcast proof fn abs_seq_push(s: Seq<JoyValue>, v: JoyValue)
    ensures
        #[trigger] abs_seq(s.push(v)) == abs_seq(s).push(abs_of(v)),
{
    broadcast use group_abs_seq;

    assert(abs_seq(s.push(v)) =~= abs_seq(s).push(abs_of(v)));
}

/// Abstraction commutes with concatenation.
pub broadcast proof fn abs_seq_concat(s1: Seq<JoyValue>, s2: Seq<JoyValue>)
    ensures
        #[trigger] abs_seq(s1 + s2) == abs_seq(s1) + abs_seq(s2),
{
    broadcast use group_abs_seq;

    assert(abs_seq(s1 + s2) =~= abs_seq(s1) + abs_seq(s2));
}

/// Abstraction commutes with taking a subrange.
pub broadcast proof fn abs_seq_subrange(s: Seq<JoyValue>, i: int, j: int)
    requires
        0 <= i <= j <= s.len(),
    ensures
        #[trigger] abs_seq(s.subrange(i, j)) == abs_seq(s).subrange(i, j),
{
    broadcast use group_abs_seq;

    assert(abs_seq(s.subrange(i, j)) =~= abs_seq(s).subrange(i, j));
}

/// Abstraction keeps each value's variant, and the integer a `Num` holds.
pub broadcast proof fn abs_of_variant(v: JoyValue)
    ensures
        ((#[trigger] abs_of(v)) is Num) == (v is Num),
        (abs_of(v) is Primitive) == (v is Primitive),
        (abs_of(v) is Quote) == (v is Quote),
        v is Num ==> abs_of(v)->Num_0 == v->Num_0 as int,
{
    match v {
        JoyValue::Num(_) => {
        },
        JoyValue::Primitive(_) => {
        },
        JoyValue::Quote(_) => {
        },
    }
}

pub broadcast group group_abs_lemmas {
    abs_seq_len,
    abs_seq_index,
    abs_seq_push,
    abs_seq_concat,
    abs_seq_subrange,
    abs_of_variant,
}

impl From<i64> for JoyValue {
    /// A host integer enters the value model as a `Num`.
    fn from(x: i64) -> (r: Self) {
        JoyValue::Num(x)
    }
}

impl vstd::std_specs::convert::FromSpecImpl<i64> for JoyValue {
    open spec fn obeys_from_spec() -> bool {
        true
    }

    open spec fn from_spec(x: i64) -> JoyValue {
        JoyValue::Num(x)
    }
}

/// A structural duplicate of a value: copying is always a fresh, deep
/// duplication, never the aliasing of shared state.
pub fn clone_value(v: &JoyValue) -> (r: JoyValue)
    ensures
        abs_of(r) == abs_of(*v),
    decreases *v, 1int,
{
    match v {
        JoyValue::Num(n) => JoyValue::Num(*n),
        JoyValue::Primitive(op) => JoyValue::Primitive(clone_op(op)),
        JoyValue::Quote(q) => {
            proof {
                assert(decreases_to!(*v => v->Quote_0));
                assert(v->Quote_0 == *q);
            }
            JoyValue::Quote(clone_values(q))
        },
    }
}

/// A structural duplicate of an operation reference.
pub fn clone_op(op: &Op) -> (r: Op)
    ensures
        abs_op(r) == abs_op(*op),
    decreases *op, 1int,
{
    match op {
        Op::Pop => Op::Pop,
        Op::Copy => Op::Copy,
        Op::Unquote => Op::Unquote,
        Op::Debug => Op::Debug,
        Op::Id => Op::Id,
        Op::Cmp => Op::Cmp,
        Op::Add => Op::Add,
        Op::Apply => Op::Apply,
        Op::Ite => Op::Ite,
        Op::Defined(body) => {
            proof {
                assert(decreases_to!(*op => op->Defined_0));
                assert(op->Defined_0 == *body);
            }
            Op::Defined(clone_values(body))
        },
    }
}

/// A structural duplicate of a whole sequence of values.
pub fn clone_values(vs: &Vec<JoyValue>) -> (r: Vec<JoyValue>)
    ensures
        abs_seq(r@) == abs_seq(vs@),
    decreases *vs, 2int,
{
    let mut out: Vec<JoyValue> = Vec::new();
    let mut i: usize = 0;
    while i < vs.len()
        invariant
            i <= vs@.len(),
            out@.len() == i,
            forall|j: int| 0 <= j < i ==> abs_of(out@[j]) == abs_of(vs@[j]),
        decreases vs@.len() - i,
    {
        proof {
            assert(decreases_to!(*vs => vs@));
            assert(decreases_to!(vs@ => vs@[i as int]));
        }
        out.push(clone_value(&vs[i]));
        i += 1;
    }
    proof {
        broadcast use group_abs_seq;

        assert(abs_seq(out@) =~= abs_seq(vs@));
    }
    out
}

} // verus!
