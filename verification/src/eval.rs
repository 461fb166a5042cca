//! The evaluation engine: threading a stack through a program, dispatching
//! literal pushes against operation invocations, and the two combinators —
//! `apply` and `ite` — that turn quotations held as data into executed
//! code.
//!
//! The executable engine carries a step budget so that its own recursion is
//! bounded; it grants the largest budget a `u64` can hold, more entries
//! into quotations than any machine could ever finish. Its contracts say
//! exactly that: either some budget reaches the result — and by
//! monotonicity the result is then the unique one — or even that budget
//! runs out and the stack is handed back unchanged.
use crate::semantics::eval_outcome;
use crate::semantics::ite_ready;
use crate::semantics::max_fuel;
use crate::semantics::prim_outcome;
use crate::semantics::run_prim;
use crate::semantics::run_program;
use crate::value::AbsOp;
use crate::value::AbsVal;
use crate::value::JoyStack;
use crate::value::JoyValue;
use crate::value::Op;
use crate::value::abs_of;
use crate::value::abs_op;
use crate::value::abs_seq;
use crate::value::clone_value;
use crate::value::clone_values;
use vstd::prelude::*;

verus! {

broadcast use crate::value::group_abs_lemmas;

/// Runs one operation with the given budget. `Err` means the budget ran
/// out somewhere inside; the stack is then forfeit and the caller restores
/// from its own copy.
fn exec_prim(fuel: u64, op: &Op, stack: JoyStack) -> (r: Result<JoyStack, ()>)
    ensures
        r is Ok ==> run_prim(fuel as nat, abs_op(*op), abs_seq(stack@)) == Some(
            abs_seq(r->Ok_0@),
        ),
        r is Err ==> run_prim(fuel as nat, abs_op(*op), abs_seq(stack@)) is None,
    decreases fuel, 0nat,
{
    match op {
        Op::Pop => Ok(crate::prims::pop(stack)),
        Op::Copy => Ok(crate::prims::copy(stack)),
        Op::Unquote => Ok(crate::prims::unquote(stack)),
        Op::Debug => Ok(crate::prims::debug(stack)),
        Op::Id => Ok(crate::prims::id(stack)),
        Op::Cmp => Ok(crate::prims::cmp(stack)),
        Op::Add => Ok(crate::prims::add(stack)),
        Op::Apply => {
            let ghost s0 = stack@;
            let mut st = stack;
            match st.pop() {
                Some(JoyValue::Quote(q)) => {
                    proof {
                        assert(abs_seq(s0).last() == abs_of(s0.last()));
                        assert(st@ =~= s0.drop_last());
                    }
                    if fuel == 0 {
                        Err(())
                    } else {
                        exec_program(fuel - 1, &q, st)
                    }
                },
                Some(_discarded) => {
                    proof {
                        assert(abs_seq(s0).last() == abs_of(s0.last()));
                        assert(st@ =~= s0.drop_last());
                        assert(abs_seq(st@) =~= abs_seq(s0).drop_last());
                    }
                    Ok(st)
                },
                None => Ok(st),
            }
        },
        Op::Ite => {
            let ghost s0 = stack@;
            let mut st = stack;
            match crate::prims::pop_slice::<3>(&mut st) {
                Some(mut vals) => {
                    let c = vals.remove(0);
                    let x = vals.remove(0);
                    let y = vals.remove(0);
                    proof {
                        assert(c == s0[s0.len() - 1]);
                        assert(x == s0[s0.len() - 2]);
                        assert(y == s0[s0.len() - 3]);
                    }
                    match (c, x, y) {
                        (JoyValue::Num(n), JoyValue::Quote(qx), JoyValue::Quote(qy)) => {
                            proof {
                                assert(ite_ready(abs_seq(s0)));
                            }
                            if fuel == 0 {
                                Err(())
                            } else {
                                if n == 0 {
                                    exec_program(fuel - 1, &qx, st)
                                } else {
                                    exec_program(fuel - 1, &qy, st)
                                }
                            }
                        },
                        (c2, x2, y2) => {
                            proof {
                                assert(!ite_ready(abs_seq(s0)));
                            }
                            st.push(y2);
                            st.push(x2);
                            st.push(c2);
                            proof {
                                assert(st@ =~= s0);
                            }
                            Ok(st)
                        },
                    }
                },
                None => Ok(st),
            }
        },
        Op::Defined(body) => {
            if fuel == 0 {
                Err(())
            } else {
                exec_program(fuel - 1, body, stack)
            }
        },
    }
}

/// Runs a whole program with the given budget: a single pass over its
/// elements, pushing literals and invoking operations.
#[verifier::loop_isolation(false)]
fn exec_program(fuel: u64, program: &JoyStack, stack: JoyStack) -> (r: Result<JoyStack, ()>)
    ensures
        r is Ok ==> run_program(fuel as nat, abs_seq(program@), abs_seq(stack@)) == Some(
            abs_seq(r->Ok_0@),
        ),
        r is Err ==> run_program(fuel as nat, abs_seq(program@), abs_seq(stack@)) is None,
    decreases fuel, 1nat,
{
    let ghost p0 = abs_seq(program@);
    let ghost s_init = abs_seq(stack@);
    let mut st = stack;
    let mut i: usize = 0;
    proof {
        assert(p0.subrange(0, p0.len() as int) =~= p0);
    }
    while i < program.len()
        invariant
            i <= program@.len(),
            p0 == abs_seq(program@),
            p0.len() == program@.len(),
            run_program(fuel as nat, p0, s_init) == run_program(
                fuel as nat,
                p0.subrange(i as int, p0.len() as int),
                abs_seq(st@),
            ),
        decreases program@.len() - i,
    {
        let ghost rest = p0.subrange(i as int, p0.len() as int);
        let ghost mid = abs_seq(st@);
        proof {
            assert(rest[0] == p0[i as int]);
            assert(p0[i as int] == abs_of(program@[i as int]));
            assert(rest.drop_first() =~= p0.subrange(i as int + 1, p0.len() as int));
        }
        match &program[i] {
            JoyValue::Primitive(op) => {
                proof {
                    assert(rest[0] == AbsVal::Primitive(abs_op(*op)));
                }
                match exec_prim(fuel, op, st) {
                    Ok(s2) => {
                        proof {
                            assert(run_program(fuel as nat, rest, mid) == run_program(
                                fuel as nat,
                                rest.drop_first(),
                                abs_seq(s2@),
                            ));
                        }
                        st = s2;
                    },
                    Err(()) => {
                        proof {
                            assert(run_prim(fuel as nat, abs_op(*op), mid) is None);
                            assert(run_program(fuel as nat, rest, mid) is None);
                        }
                        return Err(());
                    },
                }
            },
            _ => {
                let v = clone_value(&program[i]);
                st.push(v);
                proof {
                    assert(!(rest[0] is Primitive));
                    assert(abs_seq(st@) == mid.push(rest[0]));
                    assert(run_program(fuel as nat, rest, mid) == run_program(
                        fuel as nat,
                        rest.drop_first(),
                        mid.push(rest[0]),
                    ));
                }
            },
        }
        i += 1;
    }
    proof {
        assert(p0.subrange(i as int, p0.len() as int) =~= Seq::<AbsVal>::empty());
    }
    Ok(st)
}

/// Evaluates a program against a stack: literals are pushed verbatim,
/// operation references are invoked on the running stack, and the final
/// stack is returned. Every program of values is valid input; no error is
/// ever raised.
pub fn meta_apply(program: JoyStack, stack: JoyStack) -> (r: JoyStack)
    ensures
        eval_outcome(abs_seq(program@), abs_seq(stack@), abs_seq(r@)),
{
    let saved = clone_values(&stack);
    match exec_program(u64::MAX, &program, stack) {
        Ok(out) => {
            proof {
                assert(run_program(max_fuel(), abs_seq(program@), abs_seq(stack@)) == Some(
                    abs_seq(out@),
                ));
            }
            out
        },
        Err(()) => saved,
    }
}

/// Pops the top of the stack; a quotation is executed against the
/// remaining stack, anything else is silently discarded, and an empty
/// stack stays empty. This is the one operation that lets a quotation
/// stored as data become executed code.
pub fn apply(stack: JoyStack) -> (r: JoyStack)
    ensures
        prim_outcome(AbsOp::Apply, abs_seq(stack@), abs_seq(r@)),
        stack@.len() == 0 ==> r@ == stack@,
{
    let ghost s0 = stack@;
    let mut st = stack;
    match st.pop() {
        Some(JoyValue::Quote(q)) => {
            proof {
                assert(abs_seq(s0).last() == abs_of(s0.last()));
                assert(st@ =~= s0.drop_last());
            }
            let saved = clone_values(&st);
            match exec_program(u64::MAX, &q, st) {
                Ok(out) => {
                    proof {
                        assert(run_prim(max_fuel() + 1, AbsOp::Apply, abs_seq(s0)) == Some(
                            abs_seq(out@),
                        ));
                    }
                    out
                },
                Err(()) => {
                    let mut restored = saved;
                    restored.push(JoyValue::Quote(q));
                    proof {
                        assert(abs_seq(restored@) =~= abs_seq(s0));
                    }
                    restored
                },
            }
        },
        Some(_discarded) => {
            proof {
                assert(abs_seq(s0).last() == abs_of(s0.last()));
                assert(st@ =~= s0.drop_last());
                assert(abs_seq(st@) =~= abs_seq(s0).drop_last());
                assert(run_prim(0nat, AbsOp::Apply, abs_seq(s0)) == Some(abs_seq(st@)));
            }
            st
        },
        None => {
            proof {
                assert(run_prim(0nat, AbsOp::Apply, abs_seq(s0)) == Some(abs_seq(st@)));
            }
            st
        },
    }
}

/// Pops an integer condition, then a first quotation, then a second; the
/// first runs against the remaining stack when the condition is zero, the
/// second otherwise. On any other operands the stack is left as it was:
/// conditional branching as an ordinary stack operation.
pub fn ite(stack: JoyStack) -> (r: JoyStack)
    ensures
        prim_outcome(AbsOp::Ite, abs_seq(stack@), abs_seq(r@)),
        !ite_ready(abs_seq(stack@)) ==> r@ == stack@,
{
    let ghost s0 = stack@;
    let mut st = stack;
    match crate::prims::pop_slice::<3>(&mut st) {
        Some(mut vals) => {
            let c = vals.remove(0);
            let x = vals.remove(0);
            let y = vals.remove(0);
            proof {
                assert(c == s0[s0.len() - 1]);
                assert(x == s0[s0.len() - 2]);
                assert(y == s0[s0.len() - 3]);
            }
            match (c, x, y) {
                (JoyValue::Num(n), JoyValue::Quote(qx), JoyValue::Quote(qy)) => {
                    proof {
                        assert(ite_ready(abs_seq(s0)));
                    }
                    let saved = clone_values(&st);
                    let res = if n == 0 {
                        exec_program(u64::MAX, &qx, st)
                    } else {
                        exec_program(u64::MAX, &qy, st)
                    };
                    match res {
                        Ok(out) => {
                            proof {
                                assert(run_prim(max_fuel() + 1, AbsOp::Ite, abs_seq(s0)) == Some(
                                    abs_seq(out@),
                                ));
                            }
                            out
                        },
                        Err(()) => {
                            let mut restored = saved;
                            restored.push(JoyValue::Quote(qy));
                            restored.push(JoyValue::Quote(qx));
                            restored.push(JoyValue::Num(n));
                            proof {
                                assert(abs_seq(restored@) =~= abs_seq(s0));
                            }
                            restored
                        },
                    }
                },
                (c2, x2, y2) => {
                    proof {
                        assert(!ite_ready(abs_seq(s0)));
                    }
                    st.push(y2);
                    st.push(x2);
                    st.push(c2);
                    proof {
                        assert(st@ =~= s0);
                        assert(run_prim(0nat, AbsOp::Ite, abs_seq(s0)) == Some(abs_seq(st@)));
                    }
                    st
                },
            }
        },
        None => {
            proof {
                assert(!ite_ready(abs_seq(s0)));
                assert(run_prim(0nat, AbsOp::Ite, abs_seq(s0)) == Some(abs_seq(st@)));
            }
            st
        },
    }
}

} // verus!
