//! The meaning of evaluation, stated over the mathematical value model.
//!
//! Evaluation threads a stack through a program, pushing literals and
//! invoking operations. Because a quotation can duplicate itself and run
//! itself, evaluation is not total, so the semantics is indexed by a fuel
//! that bounds how many times a quotation may be entered: `None` means the
//! budget ran out, never an error. Every other failure mode — an unmet
//! operation precondition — is a silent no-op that leaves the stack as it
//! was, so every program is a valid input.
use crate::value::AbsOp;
use crate::value::AbsVal;
use vstd::prelude::*;

verus! {

/// The three-way comparison code `cmp` pushes: `1` when the first-popped
/// (topmost) integer exceeds the second-popped, `-1` when it is smaller,
/// `0` when the two are equal.
pub open spec fn three_way(top: int, second: int) -> int {
    if top == second {
        0
    } else if top > second {
        1
    } else {
        -1
    }
}

/// Addition on the fixed-width integers of the value model: the
/// mathematical sum, wrapped into the representable range.
pub open spec fn wrap_add(x: int, y: int) -> int {
    if x + y > i64::MAX {
        x + y - 0x1_0000_0000_0000_0000
    } else if x + y < i64::MIN {
        x + y + 0x1_0000_0000_0000_0000
    } else {
        x + y
    }
}

/// `pop` removes the top value; on an empty stack it is a no-op.
pub open spec fn pop_step(s: Seq<AbsVal>) -> Seq<AbsVal> {
    if s.len() == 0 {
        s
    } else {
        s.drop_last()
    }
}

/// `copy` duplicates the top value; on an empty stack it is a no-op.
pub open spec fn copy_step(s: Seq<AbsVal>) -> Seq<AbsVal> {
    if s.len() == 0 {
        s
    } else {
        s.push(s.last())
    }
}

/// `unquote` splices the elements of a topmost quotation onto the stack as
/// literal values — it does not run them. If the top is not a quotation,
/// it is a no-op.
pub open spec fn unquote_step(s: Seq<AbsVal>) -> Seq<AbsVal> {
    if s.len() > 0 && s.last() is Quote {
        s.drop_last() + s.last()->Quote_0
    } else {
        s
    }
}

/// `cmp` expects two integers on top and replaces them by the three-way
/// comparison of the first-popped against the second-popped; on any other
/// stack it is a no-op.
pub open spec fn cmp_step(s: Seq<AbsVal>) -> Seq<AbsVal> {
    if s.len() >= 2 && s[s.len() - 1] is Num && s[s.len() - 2] is Num {
        s.subrange(0, s.len() - 2).push(
            AbsVal::Num(three_way(s[s.len() - 1]->Num_0, s[s.len() - 2]->Num_0)),
        )
    } else {
        s
    }
}

/// `add` expects two integers on top and replaces them by their wrapped
/// sum; on any other stack it is a no-op.
pub open spec fn add_step(s: Seq<AbsVal>) -> Seq<AbsVal> {
    if s.len() >= 2 && s[s.len() - 1] is Num && s[s.len() - 2] is Num {
        s.subrange(0, s.len() - 2).push(
            AbsVal::Num(wrap_add(s[s.len() - 1]->Num_0, s[s.len() - 2]->Num_0)),
        )
    } else {
        s
    }
}

/// Whether the stack offers `ite` its three operands: an integer condition
/// on top, then the quotation taken when the condition is zero, then the
/// quotation taken otherwise.
pub open spec fn ite_ready(s: Seq<AbsVal>) -> bool {
    &&& s.len() >= 3
    &&& s[s.len() - 1] is Num
    &&& s[s.len() - 2] is Quote
    &&& s[s.len() - 3] is Quote
}

/// Running one operation against a stack, with at most `fuel` entries into
/// quotations. `None` means the fuel ran out.
pub open spec fn run_prim(fuel: nat, op: AbsOp, s: Seq<AbsVal>) -> Option<Seq<AbsVal>>
    decreases fuel, 0nat,
{
    match op {
        AbsOp::Id => Some(s),
        AbsOp::Debug => Some(s),
        AbsOp::Pop => Some(pop_step(s)),
        AbsOp::Copy => Some(copy_step(s)),
        AbsOp::Unquote => Some(unquote_step(s)),
        AbsOp::Cmp => Some(cmp_step(s)),
        AbsOp::Add => Some(add_step(s)),
        AbsOp::Apply => {
            // the top value is popped whatever it is; only a quotation runs
            if s.len() == 0 {
                Some(s)
            } else if s.last() is Quote {
                if fuel == 0 {
                    None
                } else {
                    run_program((fuel - 1) as nat, s.last()->Quote_0, s.drop_last())
                }
            } else {
                Some(s.drop_last())
            }
        },
        AbsOp::Ite => {
            if ite_ready(s) {
                if fuel == 0 {
                    None
                } else {
                    run_program(
                        (fuel - 1) as nat,
                        if s[s.len() - 1]->Num_0 == 0 {
                            s[s.len() - 2]->Quote_0
                        } else {
                            s[s.len() - 3]->Quote_0
                        },
                        s.subrange(0, s.len() - 3),
                    )
                }
            } else {
                Some(s)
            }
        },
        AbsOp::Defined(body) => {
            if fuel == 0 {
                None
            } else {
                run_program((fuel - 1) as nat, body, s)
            }
        },
    }
}

/// Running a whole program against a stack: a fold over the program's
/// elements, pushing literals and invoking operations, with at most `fuel`
/// entries into quotations.
pub open spec fn run_program(fuel: nat, p: Seq<AbsVal>, s: Seq<AbsVal>) -> Option<Seq<AbsVal>>
    decreases fuel, p.len() + 1nat,
{
    if p.len() == 0 {
        Some(s)
    } else {
        match p[0] {
            AbsVal::Primitive(op) => match run_prim(fuel, op, s) {
                Some(s2) => run_program(fuel, p.drop_first(), s2),
                None => None,
            },
            other => run_program(fuel, p.drop_first(), s.push(other)),
        }
    }
}

/// The fuel budget the executable evaluator grants: no terminating
/// evaluation a machine could ever finish needs more.
pub open spec fn max_fuel() -> nat {
    u64::MAX as nat
}

/// What the evaluator promises of its result: some fuel suffices to reach
/// exactly `r` — by monotonicity every larger fuel reaches the same `r` —
/// or even the maximum budget runs out and the stack is handed back
/// unchanged.
pub open spec fn eval_outcome(p: Seq<AbsVal>, s: Seq<AbsVal>, r: Seq<AbsVal>) -> bool {
    ||| (exists|fuel: nat| run_program(fuel, p, s) == Some(r))
    ||| (run_program(max_fuel(), p, s) is None && r == s)
}

/// The same promise for a single operation run on its own.
pub open spec fn prim_outcome(op: AbsOp, s: Seq<AbsVal>, r: Seq<AbsVal>) -> bool {
    ||| (exists|fuel: nat| run_prim(fuel, op, s) == Some(r))
    ||| (run_prim(max_fuel() + 1, op, s) is None && r == s)
}

/// Granting more fuel never changes a result that was already reached.
pub proof fn lemma_run_prim_mono(f1: nat, f2: nat, op: AbsOp, s: Seq<AbsVal>)
    requires
        f1 <= f2,
        run_prim(f1, op, s) is Some,
    ensures
        run_prim(f2, op, s) == run_prim(f1, op, s),
    decreases f1, 0nat,
{
    match op {
        AbsOp::Apply => {
            if s.len() > 0 && s.last() is Quote {
                lemma_run_program_mono((f1 - 1) as nat, (f2 - 1) as nat, s.last()->Quote_0, s.drop_last());
            }
        },
        AbsOp::Ite => {
            if ite_ready(s) {
                let branch = if s[s.len() - 1]->Num_0 == 0 {
                    s[s.len() - 2]->Quote_0
                } else {
                    s[s.len() - 3]->Quote_0
                };
                lemma_run_program_mono((f1 - 1) as nat, (f2 - 1) as nat, branch, s.subrange(0, s.len() - 3));
            }
        },
        AbsOp::Defined(body) => {
            lemma_run_program_mono((f1 - 1) as nat, (f2 - 1) as nat, body, s);
        },
        _ => {
        },
    }
}

/// Granting more fuel never changes a result that was already reached.
pub proof fn lemma_run_program_mono(f1: nat, f2: nat, p: Seq<AbsVal>, s: Seq<AbsVal>)
    requires
        f1 <= f2,
        run_program(f1, p, s) is Some,
    ensures
        run_program(f2, p, s) == run_program(f1, p, s),
    decreases f1, p.len() + 1nat,
{
    if p.len() > 0 {
        match p[0] {
            AbsVal::Primitive(op) => {
                lemma_run_prim_mono(f1, f2, op, s);
                let s2 = run_prim(f1, op, s)->Some_0;
                lemma_run_program_mono(f1, f2, p.drop_first(), s2);
            },
            other => {
                lemma_run_program_mono(f1, f2, p.drop_first(), s.push(other));
            },
        }
    }
}

/// A program reaches at most one result, whatever fuels are granted.
pub proof fn lemma_run_program_unique(
    f1: nat,
    f2: nat,
    p: Seq<AbsVal>,
    s: Seq<AbsVal>,
    r1: Seq<AbsVal>,
    r2: Seq<AbsVal>,
)
    requires
        run_program(f1, p, s) == Some(r1),
        run_program(f2, p, s) == Some(r2),
    ensures
        r1 == r2,
{
    if f1 <= f2 {
        lemma_run_program_mono(f1, f2, p, s);
    } else {
        lemma_run_program_mono(f2, f1, p, s);
    }
}

/// An evaluator outcome is pinned by any derivation within the budget:
/// whenever some affordable fuel reaches a result, that is the result the
/// evaluator returned.
pub proof fn lemma_eval_outcome_determined(
    p: Seq<AbsVal>,
    s: Seq<AbsVal>,
    r: Seq<AbsVal>,
    fuel: nat,
    expected: Seq<AbsVal>,
)
    requires
        fuel <= max_fuel(),
        run_program(fuel, p, s) == Some(expected),
        eval_outcome(p, s, r),
    ensures
        r == expected,
{
    lemma_run_program_mono(fuel, max_fuel(), p, s);
    let f2 = choose|f2: nat| run_program(f2, p, s) == Some(r);
    lemma_run_program_unique(fuel, f2, p, s, expected, r);
}

/// The same pinning for a single operation run on its own.
pub proof fn lemma_prim_outcome_determined(
    op: AbsOp,
    s: Seq<AbsVal>,
    r: Seq<AbsVal>,
    fuel: nat,
    expected: Seq<AbsVal>,
)
    requires
        fuel <= max_fuel() + 1,
        run_prim(fuel, op, s) == Some(expected),
        prim_outcome(op, s, r),
    ensures
        r == expected,
{
    lemma_run_prim_mono(fuel, max_fuel() + 1, op, s);
    let f2 = choose|f2: nat| run_prim(f2, op, s) == Some(r);
    lemma_run_prim_unique(fuel, f2, op, s, expected, r);
}

/// Comparison is total: for any two integers on top of any stack, `cmp`
/// replaces them by exactly one of `0` (the two are equal), `1` (the
/// last-pushed is greater), or `-1` (the last-pushed is smaller).
pub proof fn lemma_cmp_total(s: Seq<AbsVal>, x: int, y: int)
    ensures
        cmp_step(s.push(AbsVal::Num(x)).push(AbsVal::Num(y))) == s.push(
            AbsVal::Num(
                if x == y {
                    0int
                } else if y > x {
                    1int
                } else {
                    -1int
                },
            ),
        ),
{
    let t = s.push(AbsVal::Num(x)).push(AbsVal::Num(y));
    assert(t.subrange(0, t.len() - 2) =~= s);
}

/// Addition is exact wherever the mathematical sum fits the fixed-width
/// range: two integers on top of any stack become their sum.
pub proof fn lemma_add_sum(s: Seq<AbsVal>, x: int, y: int)
    requires
        i64::MIN <= x + y <= i64::MAX,
    ensures
        add_step(s.push(AbsVal::Num(x)).push(AbsVal::Num(y))) == s.push(AbsVal::Num(x + y)),
{
    let t = s.push(AbsVal::Num(x)).push(AbsVal::Num(y));
    assert(t.subrange(0, t.len() - 2) =~= s);
}

/// Zero selects the first-popped quotation, and any non-zero condition —
/// positive or negative — selects the second-popped: running `ite` on a
/// stack offering its three operands is exactly running the selected
/// branch against the rest of the stack.
pub proof fn lemma_ite_selects_branch(
    fuel: nat,
    cond: int,
    x: Seq<AbsVal>,
    y: Seq<AbsVal>,
    s: Seq<AbsVal>,
)
    ensures
        run_prim(
            fuel + 1,
            AbsOp::Ite,
            s.push(AbsVal::Quote(y)).push(AbsVal::Quote(x)).push(AbsVal::Num(cond)),
        ) == run_program(
            fuel,
            if cond == 0 {
                x
            } else {
                y
            },
            s,
        ),
{
    let t = s.push(AbsVal::Quote(y)).push(AbsVal::Quote(x)).push(AbsVal::Num(cond));
    assert(ite_ready(t));
    assert(t.subrange(0, t.len() - 3) =~= s);
}

/// A quotation run through `apply` is the program run directly: applying
/// `[Quote(p)]` on an empty remainder reaches whatever running `p` on the
/// empty stack reaches.
pub proof fn lemma_quote_apply_round_trip(fuel: nat, p: Seq<AbsVal>)
    ensures
        run_prim(fuel + 1, AbsOp::Apply, seq![AbsVal::Quote(p)]) == run_program(
            fuel,
            p,
            Seq::empty(),
        ),
{
    let s = seq![AbsVal::Quote(p)];
    assert(s.last() == AbsVal::Quote(p));
    assert(s.drop_last() =~= Seq::<AbsVal>::empty());
}

/// An operation whose precondition is unmet is a silent no-op: the stack
/// comes back unchanged. The one exception is `apply` on a non-quotation
/// top, which discards the popped value; on an empty stack even `apply`
/// leaves the stack as it was.
pub proof fn lemma_unmet_precondition_noop(fuel: nat, s: Seq<AbsVal>)
    ensures
        s.len() == 0 ==> pop_step(s) == s,
        s.len() == 0 ==> copy_step(s) == s,
        !(s.len() > 0 && s.last() is Quote) ==> unquote_step(s) == s,
        !(s.len() >= 2 && s[s.len() - 1] is Num && s[s.len() - 2] is Num) ==> cmp_step(s) == s,
        !(s.len() >= 2 && s[s.len() - 1] is Num && s[s.len() - 2] is Num) ==> add_step(s) == s,
        !ite_ready(s) ==> run_prim(fuel, AbsOp::Ite, s) == Some(s),
        s.len() == 0 ==> run_prim(fuel, AbsOp::Apply, s) == Some(s),
{
}

/// An operation reaches at most one result, whatever fuels are granted.
pub proof fn lemma_run_prim_unique(
    f1: nat,
    f2: nat,
    op: AbsOp,
    s: Seq<AbsVal>,
    r1: Seq<AbsVal>,
    r2: Seq<AbsVal>,
)
    requires
        run_prim(f1, op, s) == Some(r1),
        run_prim(f2, op, s) == Some(r2),
    ensures
        r1 == r2,
{
    if f1 <= f2 {
        lemma_run_prim_mono(f1, f2, op, s);
    } else {
        lemma_run_prim_mono(f2, f1, op, s);
    }
}

} // verus!
