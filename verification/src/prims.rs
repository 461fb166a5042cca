//! The primitive operation library: each primitive is a pure
//! stack-to-stack transformation, total on every stack. An unmet
//! precondition degrades to a silent no-op that hands the stack back
//! unchanged; the slice extractor's all-or-nothing contract is what lets
//! the typed primitives pattern-match their operands without ever
//! corrupting the stack on a short or mismatched input.
use std::io::Write;

use crate::semantics::add_step;
use crate::semantics::cmp_step;
use crate::semantics::copy_step;
use crate::semantics::pop_step;
use crate::semantics::three_way;
use crate::semantics::unquote_step;
use crate::semantics::wrap_add;
use crate::value::AbsVal;
use crate::value::JoyStack;
use crate::value::JoyValue;
use crate::value::abs_of;
use crate::value::abs_seq;
use crate::value::clone_value;
use vstd::prelude::*;

verus! {

broadcast use crate::value::group_abs_lemmas;

/// Removes exactly `N` values from the top of the stack, the topmost
/// becoming the first element of the result. If fewer than `N` are
/// available, nothing is removed and the stack is left exactly as it was:
/// all or nothing.
pub fn pop_slice<const N: usize>(stack: &mut JoyStack) -> (r: Option<Vec<JoyValue>>)
    ensures
        old(stack)@.len() < N ==> r is None && *final(stack) == *old(stack),
        old(stack)@.len() >= N ==> {
            &&& r is Some
            &&& r->Some_0@.len() == N
            &&& final(stack)@ == old(stack)@.subrange(0, old(stack)@.len() - N)
            &&& forall|i: int|
                0 <= i < N ==> r->Some_0@[i] == old(stack)@[old(stack)@.len() - 1 - i]
        },
{
    if stack.len() < N {
        return None;
    }
    let ghost s0 = stack@;
    let mut vals: Vec<JoyValue> = Vec::new();
    let mut k: usize = 0;
    while k < N
        invariant
            k <= N,
            N <= s0.len(),
            stack@ == s0.subrange(0, s0.len() - k),
            vals@.len() == k,
            forall|i: int| 0 <= i < k ==> vals@[i] == s0[s0.len() - 1 - i],
        decreases N - k,
    {
        match stack.pop() {
            Some(v) => {
                vals.push(v);
            },
            None => {
                proof {
                    assert(false);
                }
            },
        }
        k += 1;
        proof {
            assert(stack@ =~= s0.subrange(0, s0.len() - k));
        }
    }
    Some(vals)
}

/// Removes and discards the top value; on an empty stack, a no-op.
pub fn pop(stack: JoyStack) -> (r: JoyStack)
    ensures
        abs_seq(r@) == pop_step(abs_seq(stack@)),
        stack@.len() == 0 ==> r@ == stack@,
{
    let ghost s0 = stack@;
    let mut result = stack;
    let _discarded = result.pop();
    proof {
        if s0.len() > 0 {
            assert(result@ =~= s0.subrange(0, s0.len() - 1));
            assert(abs_seq(result@) =~= abs_seq(s0).drop_last());
        }
    }
    result
}

/// Duplicates the top value, pushing a structural copy above it; on an
/// empty stack, a no-op.
pub fn copy(stack: JoyStack) -> (r: JoyStack)
    ensures
        abs_seq(r@) == copy_step(abs_seq(stack@)),
        stack@.len() == 0 ==> r@ == stack@,
{
    let ghost s0 = stack@;
    let mut result = stack;
    if result.len() > 0 {
        let dup = clone_value(&result[result.len() - 1]);
        result.push(dup);
        proof {
            assert(abs_seq(result@) == abs_seq(s0).push(abs_seq(s0).last()));
        }
    }
    result
}

/// If the top value is a quotation, removes it and splices its program's
/// elements onto the stack as literal values — a splice, not an
/// execution. Otherwise a no-op.
pub fn unquote(stack: JoyStack) -> (r: JoyStack)
    ensures
        abs_seq(r@) == unquote_step(abs_seq(stack@)),
        !(stack@.len() > 0 && stack@.last() is Quote) ==> r@ == stack@,
{
    let ghost s0 = stack@;
    let mut result = stack;
    match result.pop() {
        Some(JoyValue::Quote(mut q)) => {
            proof {
                assert(result@ =~= s0.drop_last());
                assert(abs_seq(s0).last() == abs_of(s0.last()));
            }
            result.append(&mut q);
            proof {
                assert(abs_seq(result@) == abs_seq(s0).drop_last() + abs_seq(s0).last()->Quote_0);
            }
            result
        },
        Some(other) => {
            result.push(other);
            proof {
                assert(result@ =~= s0);
                assert(abs_of(s0.last()) == abs_seq(s0).last());
            }
            result
        },
        None => result,
    }
}

/// Emits the current stack's contents on the diagnostic stream and hands
/// the stack back unchanged — the library's only observable side effect.
///
/// Relies on std::io::stderr and writeln: writing a `Debug` rendering of
/// the stack to the standard error stream does not touch the stack itself.
#[verifier::external_body]
pub fn debug(stack: JoyStack) -> (r: JoyStack)
    ensures
        r == stack,
{
    let mut err = std::io::stderr();
    let _ = writeln!(err, "{:?}", stack);
    stack
}

/// Returns the stack unchanged.
pub fn id(stack: JoyStack) -> (r: JoyStack)
    ensures
        r == stack,
{
    stack
}

/// If the top two values are both integers, replaces them by the
/// three-way comparison of the first-popped against the second-popped,
/// encoded as `-1`, `0` or `1`. Otherwise a no-op: whatever was consumed
/// is restored and the stack is left as it was.
pub fn cmp(stack: JoyStack) -> (r: JoyStack)
    ensures
        abs_seq(r@) == cmp_step(abs_seq(stack@)),
        !(stack@.len() >= 2 && stack@[stack@.len() - 1] is Num && stack@[stack@.len() - 2] is Num)
            ==> r@ == stack@,
{
    let ghost s0 = stack@;
    let mut result = stack;
    match pop_slice::<2>(&mut result) {
        Some(mut vals) => {
            let first = vals.remove(0);
            let second = vals.remove(0);
            match (first, second) {
                (JoyValue::Num(x), JoyValue::Num(y)) => {
                    let code: i64 = if x == y {
                        0
                    } else if x > y {
                        1
                    } else {
                        -1
                    };
                    result.push(JoyValue::Num(code));
                    proof {
                        assert(code as int == three_way(x as int, y as int));
                        assert(abs_seq(result@) == abs_seq(s0).subrange(0, s0.len() - 2).push(
                            AbsVal::Num(code as int),
                        ));
                    }
                    result
                },
                (f, s) => {
                    result.push(s);
                    result.push(f);
                    proof {
                        assert(result@ =~= s0);
                    }
                    result
                },
            }
        },
        None => result,
    }
}

/// If the top two values are both integers, replaces them by their sum,
/// wrapped into the fixed-width range. Otherwise a no-op: whatever was
/// consumed is restored and the stack is left as it was.
pub fn add(stack: JoyStack) -> (r: JoyStack)
    ensures
        abs_seq(r@) == add_step(abs_seq(stack@)),
        !(stack@.len() >= 2 && stack@[stack@.len() - 1] is Num && stack@[stack@.len() - 2] is Num)
            ==> r@ == stack@,
{
    let ghost s0 = stack@;
    let mut result = stack;
    match pop_slice::<2>(&mut result) {
        Some(mut vals) => {
            let first = vals.remove(0);
            let second = vals.remove(0);
            match (first, second) {
                (JoyValue::Num(x), JoyValue::Num(y)) => {
                    let sum = x.wrapping_add(y);
                    result.push(JoyValue::Num(sum));
                    proof {
                        assert(sum as int == wrap_add(x as int, y as int));
                        assert(abs_seq(result@) == abs_seq(s0).subrange(0, s0.len() - 2).push(
                            AbsVal::Num(sum as int),
                        ));
                    }
                    result
                },
                (f, s) => {
                    result.push(s);
                    result.push(f);
                    proof {
                        assert(result@ =~= s0);
                    }
                    result
                },
            }
        },
        None => result,
    }
}

} // verus!
