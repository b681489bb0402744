use galaxy::eval::{BuiltIn, EvalError, State, Value};
use galaxy::syntax::{Stmt, Token};

const FUEL: u64 = 10_000;

fn ap(f: Value, a: Value) -> Value {
    Value::Apply(Box::new(f), Box::new(a))
}

fn num(n: i64) -> Value {
    Value::Number(n)
}

fn bi(b: BuiltIn) -> Value {
    Value::BuiltIn(b)
}

fn run(v: Value) -> Result<Value, EvalError> {
    State::new().eval_value(v, FUEL)
}

#[test]
fn identity_returns_argument() {
    assert_eq!(run(ap(bi(BuiltIn::I), num(42))), Ok(num(42)));
}

#[test]
fn identity_on_builtin() {
    assert_eq!(run(ap(bi(BuiltIn::I), bi(BuiltIn::Nil))), Ok(bi(BuiltIn::Nil)));
}

#[test]
fn addition() {
    assert_eq!(run(ap(ap(bi(BuiltIn::Add), num(3)), num(4))), Ok(num(7)));
}

#[test]
fn multiplication() {
    assert_eq!(run(ap(ap(bi(BuiltIn::Mul), num(3)), num(4))), Ok(num(12)));
}

#[test]
fn division_truncates() {
    assert_eq!(run(ap(ap(bi(BuiltIn::Div), num(10)), num(3))), Ok(num(3)));
}

#[test]
fn division_truncates_toward_zero() {
    assert_eq!(run(ap(ap(bi(BuiltIn::Div), num(-7)), num(2))), Ok(num(-3)));
}

#[test]
fn increment_and_decrement() {
    assert_eq!(run(ap(bi(BuiltIn::Inc), num(5))), Ok(num(6)));
    assert_eq!(run(ap(bi(BuiltIn::Dec), num(5))), Ok(num(4)));
}

#[test]
fn negation() {
    assert_eq!(run(ap(bi(BuiltIn::Neg), num(5))), Ok(num(-5)));
}

#[test]
fn power_of_two() {
    assert_eq!(run(ap(bi(BuiltIn::Pwr2), num(8))), Ok(num(256)));
    assert_eq!(run(ap(bi(BuiltIn::Pwr2), num(0))), Ok(num(1)));
}

#[test]
fn eq_selects_first_on_equal() {
    let cmp = ap(ap(bi(BuiltIn::Eq), num(4)), num(4));
    assert_eq!(run(ap(ap(cmp, num(1)), num(2))), Ok(num(1)));
}

#[test]
fn eq_selects_second_on_unequal() {
    let cmp = ap(ap(bi(BuiltIn::Eq), num(4)), num(5));
    assert_eq!(run(ap(ap(cmp, num(1)), num(2))), Ok(num(2)));
}

#[test]
fn lt_selects_first_branch() {
    let cmp = ap(ap(bi(BuiltIn::Lt), num(3)), num(4));
    assert_eq!(run(ap(ap(cmp, num(1)), num(2))), Ok(num(1)));
}

#[test]
fn s_combinator() {
    // S add i 3 applies add to 3 and to (i 3): the sum is six
    let e = ap(ap(ap(bi(BuiltIn::S), bi(BuiltIn::Add)), bi(BuiltIn::I)), num(3));
    assert_eq!(run(e), Ok(num(6)));
}

#[test]
fn c_combinator() {
    // C add 1 2 swaps the last two arguments: (add 2) 1
    let e = ap(ap(ap(bi(BuiltIn::C), bi(BuiltIn::Add)), num(1)), num(2));
    assert_eq!(run(e), Ok(num(3)));
}

#[test]
fn b_combinator() {
    // B neg neg 5 composes: neg (neg 5)
    let e = ap(ap(ap(bi(BuiltIn::B), bi(BuiltIn::Neg)), bi(BuiltIn::Neg)), num(5));
    assert_eq!(run(e), Ok(num(5)));
}

#[test]
fn head_of_pair() {
    let pair = ap(ap(bi(BuiltIn::Cons), num(1)), num(2));
    assert_eq!(run(ap(bi(BuiltIn::Head), pair)), Ok(num(1)));
}

#[test]
fn tail_of_pair() {
    let pair = ap(ap(bi(BuiltIn::Cons), num(1)), num(2));
    assert_eq!(run(ap(bi(BuiltIn::Tail), pair)), Ok(num(2)));
}

#[test]
fn isnil_on_nil() {
    assert_eq!(run(ap(bi(BuiltIn::IsNil), bi(BuiltIn::Nil))), Ok(bi(BuiltIn::True)));
}

#[test]
fn isnil_on_pair() {
    let pair = ap(ap(bi(BuiltIn::Cons), num(1)), num(2));
    assert_eq!(run(ap(bi(BuiltIn::IsNil), pair)), Ok(bi(BuiltIn::False)));
}

#[test]
fn nil_probed_behaves_as_true() {
    assert_eq!(run(ap(bi(BuiltIn::Nil), num(9))), Ok(bi(BuiltIn::True)));
}

#[test]
fn if0_selects_then_branch() {
    let e = ap(ap(ap(bi(BuiltIn::If0), num(0)), num(7)), num(8));
    assert_eq!(run(e), Ok(num(7)));
}

#[test]
fn if0_selects_else_branch() {
    let e = ap(ap(ap(bi(BuiltIn::If0), num(1)), num(7)), num(8));
    assert_eq!(run(e), Ok(num(8)));
}

#[test]
fn true_selector_ignores_second() {
    assert_eq!(run(ap(ap(bi(BuiltIn::True), num(1)), num(2))), Ok(num(1)));
}

#[test]
fn false_selector_ignores_first() {
    assert_eq!(run(ap(ap(bi(BuiltIn::False), num(1)), num(2))), Ok(num(2)));
}

#[test]
fn applying_a_number_is_a_type_mismatch() {
    assert_eq!(run(ap(num(5), num(1))), Err(EvalError::TypeMismatch));
}

#[test]
fn incrementing_nil_is_a_type_mismatch() {
    assert_eq!(run(ap(bi(BuiltIn::Inc), bi(BuiltIn::Nil))), Err(EvalError::TypeMismatch));
}

#[test]
fn division_by_zero_is_reported() {
    assert_eq!(
        run(ap(ap(bi(BuiltIn::Div), num(10)), num(0))),
        Err(EvalError::DivisionByZero)
    );
}

#[test]
fn addition_overflow_is_reported() {
    assert_eq!(
        run(ap(ap(bi(BuiltIn::Add), num(i64::MAX)), num(1))),
        Err(EvalError::NumericOverflow)
    );
}

#[test]
fn division_overflow_is_reported() {
    assert_eq!(
        run(ap(ap(bi(BuiltIn::Div), num(i64::MIN)), num(-1))),
        Err(EvalError::NumericOverflow)
    );
}

#[test]
fn send_is_unsupported() {
    assert_eq!(
        run(ap(bi(BuiltIn::Send), num(0))),
        Err(EvalError::UnsupportedOperation)
    );
}

#[test]
fn out_of_fuel_on_zero_budget() {
    let st = State::new();
    assert_eq!(
        st.eval_value(ap(bi(BuiltIn::I), num(1)), 0),
        Err(EvalError::OutOfFuel)
    );
}

#[test]
fn self_referential_definition_exhausts_budget() {
    let mut st = State::new();
    st.interpret(Stmt { var: 1, code: vec![Token::Var(1)] }).unwrap();
    assert_eq!(st.eval(1, 50), Err(EvalError::OutOfFuel));
}

#[test]
fn unbound_variable_is_reported() {
    let st = State::new();
    assert_eq!(st.eval(99, FUEL), Err(EvalError::UnboundVariable(99)));
}

#[test]
fn modulate_a_number_yields_its_signal() {
    assert_eq!(
        run(ap(bi(BuiltIn::Mod), num(0))),
        Ok(Value::Signal(vec![false, true, false]))
    );
}

#[test]
fn demodulate_is_unsupported() {
    let sig = ap(bi(BuiltIn::Mod), num(1));
    assert_eq!(run(ap(bi(BuiltIn::Dem), sig)), Err(EvalError::UnsupportedOperation));
}

#[test]
fn interpret_compiles_and_eval_reduces() {
    let mut st = State::new();
    // ap ap add 1 2
    let code = vec![Token::Ap, Token::Ap, Token::Add, Token::Number(1), Token::Number(2)];
    st.interpret(Stmt { var: 7, code }).unwrap();
    assert_eq!(st.eval(7, FUEL), Ok(num(3)));
}

#[test]
fn definitions_refer_to_each_other() {
    let mut st = State::new();
    st.interpret(Stmt { var: 1, code: vec![Token::Number(20)] }).unwrap();
    // ap ap add :1 22
    let code = vec![Token::Ap, Token::Ap, Token::Add, Token::Var(1), Token::Number(22)];
    st.interpret(Stmt { var: 2, code }).unwrap();
    assert_eq!(st.eval(2, FUEL), Ok(num(42)));
}

#[test]
fn compile_builds_an_application_tree() {
    let st = State::new();
    let code = vec![Token::Ap, Token::Inc, Token::Number(1)];
    let v = st.compile(code).unwrap();
    assert_eq!(v, ap(bi(BuiltIn::Inc), num(1)));
}

#[test]
fn compile_rejects_dangling_apply() {
    let st = State::new();
    assert_eq!(st.compile(vec![Token::Ap]), Err(EvalError::MalformedProgram));
}

#[test]
fn compile_rejects_leftover_stack() {
    let st = State::new();
    assert_eq!(
        st.compile(vec![Token::Number(1), Token::Number(2)]),
        Err(EvalError::MalformedProgram)
    );
}

#[test]
fn compile_rejects_empty_body() {
    let st = State::new();
    assert_eq!(st.compile(Vec::new()), Err(EvalError::MalformedProgram));
}
