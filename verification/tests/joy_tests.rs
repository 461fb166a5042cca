use joy::Form;
use joy::JoyValue;
use joy::JoyValue::Num;
use joy::Op;

/// The stack holds exactly one value, and it is the expected one.
fn assert_value(stack: joy::JoyStack, value: JoyValue) {
    let mut stack = stack;
    assert!(stack.len() == 1);
    match stack.pop() {
        Some(x) => {
            assert_eq!(x, value)
        }
        None => unreachable!(),
    }
}

/// Builds and runs a program description on an empty stack.
fn eval(forms: Vec<Form>) -> joy::JoyStack {
    joy::eval_forms(&forms, vec![])
}

#[test]
fn cmp() {
    assert_value(eval(vec![Form::Lit(2), Form::Lit(2), Form::Name(Op::Cmp)]), Num(0));
    assert_value(eval(vec![Form::Host(-3), Form::Host(-3), Form::Name(Op::Cmp)]), Num(0));
    assert_value(eval(vec![Form::Lit(0), Form::Lit(0), Form::Name(Op::Cmp)]), Num(0));
    assert_value(eval(vec![Form::Lit(2), Form::Lit(4), Form::Name(Op::Cmp)]), Num(1));
    assert_value(eval(vec![Form::Host(-5), Form::Lit(4), Form::Name(Op::Cmp)]), Num(1));
    assert_value(eval(vec![Form::Lit(7), Form::Lit(2), Form::Name(Op::Cmp)]), Num(-1));
    assert_value(eval(vec![Form::Lit(7), Form::Host(-11), Form::Name(Op::Cmp)]), Num(-1));
}

#[test]
fn ite() {
    let branches = || {
        vec![
            Form::List(vec![Form::Lit(3)]),
            Form::List(vec![Form::Lit(6)]),
        ]
    };
    let mut zero = branches();
    zero.push(Form::Lit(0));
    zero.push(Form::Name(Op::Ite));
    assert_value(eval(zero), Num(6));

    let mut negative = branches();
    negative.push(Form::Host(-5));
    negative.push(Form::Name(Op::Ite));
    assert_value(eval(negative), Num(3));

    let mut positive = branches();
    positive.push(Form::Lit(11));
    positive.push(Form::Name(Op::Ite));
    assert_value(eval(positive), Num(3));
}

#[test]
fn add_sums_two_integers() {
    assert_value(
        eval(vec![Form::Lit(2), Form::Lit(3), Form::Name(Op::Add)]),
        JoyValue::Num(5),
    );
    assert_value(
        eval(vec![Form::Host(-7), Form::Lit(7), Form::Name(Op::Add)]),
        JoyValue::Num(0),
    );
}

#[test]
fn add_wraps_at_the_range_edge() {
    assert_value(
        eval(vec![Form::Lit(i64::MAX), Form::Lit(1), Form::Name(Op::Add)]),
        JoyValue::Num(i64::MIN),
    );
}

#[test]
fn add_is_a_noop_on_mismatched_operands() {
    let stack = vec![
        JoyValue::Quote(vec![JoyValue::Num(1)]),
        JoyValue::Num(5),
    ];
    let expected = vec![
        JoyValue::Quote(vec![JoyValue::Num(1)]),
        JoyValue::Num(5),
    ];
    assert_eq!(joy::prims::add(stack), expected);

    let empty: joy::JoyStack = vec![];
    assert_eq!(joy::prims::add(empty), vec![]);
}

#[test]
fn cmp_is_a_noop_on_mismatched_operands() {
    let stack = vec![JoyValue::Quote(vec![]), JoyValue::Num(5)];
    let expected = vec![JoyValue::Quote(vec![]), JoyValue::Num(5)];
    assert_eq!(joy::cmp(stack), expected);
}

#[test]
fn pop_slice_is_all_or_nothing() {
    let mut stack = vec![JoyValue::Num(1), JoyValue::Num(2)];
    assert_eq!(joy::pop_slice::<3>(&mut stack), None);
    assert_eq!(stack, vec![JoyValue::Num(1), JoyValue::Num(2)]);

    let taken = joy::pop_slice::<2>(&mut stack);
    assert_eq!(taken, Some(vec![JoyValue::Num(2), JoyValue::Num(1)]));
    assert_eq!(stack, vec![]);
}

#[test]
fn pop_discards_the_top() {
    let stack = vec![JoyValue::Num(1), JoyValue::Num(2)];
    assert_eq!(joy::pop(stack), vec![JoyValue::Num(1)]);
    assert_eq!(joy::pop(vec![]), vec![]);
}

#[test]
fn copy_duplicates_the_top() {
    let stack = vec![JoyValue::Num(1), JoyValue::Num(2)];
    assert_eq!(
        joy::copy(stack),
        vec![JoyValue::Num(1), JoyValue::Num(2), JoyValue::Num(2)]
    );
    assert_eq!(joy::copy(vec![]), vec![]);
}

#[test]
fn unquote_splices_where_apply_executes() {
    let stack = vec![
        JoyValue::Num(3),
        JoyValue::Num(4),
        JoyValue::Quote(vec![JoyValue::Primitive(Op::Add)]),
    ];
    let spliced = joy::unquote(stack);
    assert_eq!(
        spliced,
        vec![
            JoyValue::Num(3),
            JoyValue::Num(4),
            JoyValue::Primitive(Op::Add)
        ]
    );

    let stack = vec![
        JoyValue::Num(3),
        JoyValue::Num(4),
        JoyValue::Quote(vec![JoyValue::Primitive(Op::Add)]),
    ];
    assert_eq!(joy::apply(stack), vec![JoyValue::Num(7)]);
}

#[test]
fn unquote_is_a_noop_without_a_quotation() {
    let stack = vec![JoyValue::Num(3)];
    assert_eq!(joy::unquote(stack), vec![JoyValue::Num(3)]);
    assert_eq!(joy::unquote(vec![]), vec![]);
}

#[test]
fn apply_matches_running_the_program_directly() {
    let program = || {
        vec![
            JoyValue::Num(1),
            JoyValue::Num(2),
            JoyValue::Primitive(Op::Add),
        ]
    };
    let through_apply = joy::apply(vec![JoyValue::Quote(program())]);
    let direct = joy::meta_apply(program(), vec![]);
    assert_eq!(through_apply, direct);
    assert_eq!(through_apply, vec![JoyValue::Num(3)]);
}

#[test]
fn apply_discards_a_non_quotation_top() {
    assert_eq!(joy::apply(vec![JoyValue::Num(5)]), vec![]);
    assert_eq!(joy::apply(vec![]), vec![]);
}

#[test]
fn ite_is_a_noop_on_mismatched_operands() {
    let stack = vec![JoyValue::Num(1), JoyValue::Num(2), JoyValue::Num(0)];
    assert_eq!(
        joy::ite(stack),
        vec![JoyValue::Num(1), JoyValue::Num(2), JoyValue::Num(0)]
    );
    assert_eq!(joy::ite(vec![JoyValue::Num(0)]), vec![JoyValue::Num(0)]);
}

#[test]
fn defined_operations_run_their_body() {
    let two_add = joy::define_op(&vec![Form::Name(Op::Add), Form::Name(Op::Add)]);
    assert_value(
        eval(vec![Form::Lit(2), Form::Lit(3), Form::Name(two_add)]),
        JoyValue::Num(5),
    );
}

#[test]
fn literals_and_quotations_push_verbatim() {
    let result = eval(vec![
        Form::Lit(1),
        Form::Lit(2),
        Form::List(vec![Form::Lit(3), Form::Name(Op::Add)]),
    ]);
    assert_eq!(
        result,
        vec![
            JoyValue::Num(1),
            JoyValue::Num(2),
            JoyValue::Quote(vec![JoyValue::Num(3), JoyValue::Primitive(Op::Add)])
        ]
    );
}

#[test]
fn host_values_enter_as_integers() {
    let result = eval(vec![Form::Host(-5 + 6), Form::Host(-6)]);
    assert_eq!(result, vec![JoyValue::Num(1), JoyValue::Num(-6)]);
    assert_eq!(JoyValue::from(9), JoyValue::Num(9));
}

#[test]
fn id_and_debug_leave_the_stack_unchanged() {
    let stack = vec![
        JoyValue::Num(1),
        JoyValue::Quote(vec![JoyValue::Primitive(Op::Cmp)]),
    ];
    let expected = vec![
        JoyValue::Num(1),
        JoyValue::Quote(vec![JoyValue::Primitive(Op::Cmp)]),
    ];
    let after_id = joy::id(stack);
    assert_eq!(after_id, expected);
    let after_debug = joy::debug(after_id);
    assert_eq!(after_debug, expected);
}

#[test]
fn evaluation_runs_on_a_given_initial_stack() {
    let program = vec![JoyValue::Primitive(Op::Add)];
    let stack = vec![JoyValue::Num(10), JoyValue::Num(20)];
    assert_eq!(joy::meta_apply(program, stack), vec![JoyValue::Num(30)]);
}
