//! Laws of the reduction engine, proved over the specification semantics:
//! the identity rule, the S/C/B combinator rules, the comparison selectors,
//! the conditional, and the failure of applying a non-function.
//!
//! Each rule comes in a fuel-indexed form — one reduction of the redex costs
//! a fixed number of steps and then agrees exactly with its reduct — and in
//! a budget-free form over `reduces_to`, through fuel monotonicity.

use vstd::prelude::*;

use crate::eval::{
    apply_builtin_spec,
    apply_partial0_spec,
    apply_partial1_spec,
    apply_spec,
    eval_spec,
    BuiltIn,
    EvalError,
    Node,
    PartialAp,
};
use crate::syntax::Var;

verus! {

/// One application node.
pub open spec fn ap(f: Node, a: Node) -> Node {
    Node::Apply(Box::new(f), Box::new(a))
}

/// An expression reduces to `r` when some step budget suffices; with the
/// engine's deterministic semantics this is the budget-free notion of
/// reduction.
pub open spec fn reduces_to(env: Map<Var, Node>, n: Node, r: Node) -> bool {
    exists|fuel: nat| eval_spec(env, n, fuel) == Ok::<Node, EvalError>(r)
}

/// Identity: applying `i` costs one step and then agrees exactly with the
/// argument's own reduction.
pub proof fn lemma_identity_fuel(env: Map<Var, Node>, x: Node, fuel: nat)
    requires
        fuel >= 1,
    ensures
        eval_spec(env, ap(Node::BuiltIn(BuiltIn::I), x), fuel) == eval_spec(
            env,
            x,
            (fuel - 1) as nat,
        ),
{
    reveal_with_fuel(eval_spec, 3);
    reveal_with_fuel(apply_spec, 2);
    reveal_with_fuel(apply_builtin_spec, 2);
}

/// Identity: `reduce(Apply(i, x))` equals `reduce(x)`, for any `x`.
pub proof fn lemma_identity(env: Map<Var, Node>, x: Node, r: Node)
    ensures
        reduces_to(env, ap(Node::BuiltIn(BuiltIn::I), x), r) <==> reduces_to(env, x, r),
{
    let lhs = ap(Node::BuiltIn(BuiltIn::I), x);
    if reduces_to(env, lhs, r) {
        let fuel = choose|fuel: nat| eval_spec(env, lhs, fuel) == Ok::<Node, EvalError>(r);
        assert(fuel >= 1) by {
            reveal_with_fuel(eval_spec, 1);
        }
        lemma_identity_fuel(env, x, fuel);
        assert(eval_spec(env, x, (fuel - 1) as nat) == Ok::<Node, EvalError>(r));
    }
    if reduces_to(env, x, r) {
        let fuel = choose|fuel: nat| eval_spec(env, x, fuel) == Ok::<Node, EvalError>(r);
        lemma_identity_fuel(env, x, fuel + 1);
        assert(eval_spec(env, lhs, fuel + 1) == Ok::<Node, EvalError>(r));
    }
}

/// S: applying `s` to three arguments costs three steps and then agrees
/// exactly with `Apply(Apply(f, x), Apply(g, x))`.
pub proof fn lemma_s_fuel(env: Map<Var, Node>, f: Node, g: Node, x: Node, fuel: nat)
    requires
        fuel >= 3,
    ensures
        eval_spec(env, ap(ap(ap(Node::BuiltIn(BuiltIn::S), f), g), x), fuel) == eval_spec(
            env,
            ap(ap(f, x), ap(g, x)),
            (fuel - 1) as nat,
        ),
{
    reveal_with_fuel(eval_spec, 5);
    reveal_with_fuel(apply_spec, 4);
    reveal_with_fuel(apply_builtin_spec, 2);
    reveal_with_fuel(apply_partial0_spec, 2);
    reveal_with_fuel(apply_partial1_spec, 2);
}

/// C: applying `c` to three arguments costs three steps and then agrees
/// exactly with `Apply(Apply(f, x), g)` — the last two arguments swapped.
pub proof fn lemma_c_fuel(env: Map<Var, Node>, f: Node, g: Node, x: Node, fuel: nat)
    requires
        fuel >= 3,
    ensures
        eval_spec(env, ap(ap(ap(Node::BuiltIn(BuiltIn::C), f), g), x), fuel) == eval_spec(
            env,
            ap(ap(f, x), g),
            (fuel - 1) as nat,
        ),
{
    reveal_with_fuel(eval_spec, 5);
    reveal_with_fuel(apply_spec, 4);
    reveal_with_fuel(apply_builtin_spec, 2);
    reveal_with_fuel(apply_partial0_spec, 2);
    reveal_with_fuel(apply_partial1_spec, 2);
}

/// B: applying `b` to three arguments costs three steps and then agrees
/// exactly with `Apply(f, Apply(g, x))` — function composition.
pub proof fn lemma_b_fuel(env: Map<Var, Node>, f: Node, g: Node, x: Node, fuel: nat)
    requires
        fuel >= 3,
    ensures
        eval_spec(env, ap(ap(ap(Node::BuiltIn(BuiltIn::B), f), g), x), fuel) == eval_spec(
            env,
            ap(f, ap(g, x)),
            (fuel - 1) as nat,
        ),
{
    reveal_with_fuel(eval_spec, 5);
    reveal_with_fuel(apply_spec, 4);
    reveal_with_fuel(apply_builtin_spec, 2);
    reveal_with_fuel(apply_partial0_spec, 2);
    reveal_with_fuel(apply_partial1_spec, 2);
}

/// More budget never changes a result: a reduction that did not fail for
/// want of steps returns the same answer under any larger budget.
pub proof fn lemma_eval_mono(env: Map<Var, Node>, n: Node, fuel1: nat, fuel2: nat)
    requires
        fuel1 <= fuel2,
        eval_spec(env, n, fuel1) != Err::<Node, EvalError>(EvalError::OutOfFuel),
    ensures
        eval_spec(env, n, fuel2) == eval_spec(env, n, fuel1),
    decreases fuel1, 0int,
{
    reveal_with_fuel(eval_spec, 2);
    match n {
        Node::VarRef(name) => {
            assert(fuel1 >= 1);
            if env.contains_key(name) {
                lemma_eval_mono(env, env[name], (fuel1 - 1) as nat, (fuel2 - 1) as nat);
            }
        },
        Node::Apply(bf, ba) => {
            assert(fuel1 >= 1);
            let ef = eval_spec(env, *bf, (fuel1 - 1) as nat);
            if ef != Err::<Node, EvalError>(EvalError::OutOfFuel) {
                lemma_eval_mono(env, *bf, (fuel1 - 1) as nat, (fuel2 - 1) as nat);
                match ef {
                    Ok(efv) => {
                        if apply_spec(env, efv, *ba, (fuel1 - 1) as nat) != Err::<
                            Node,
                            EvalError,
                        >(EvalError::OutOfFuel) {
                            lemma_apply_mono(env, efv, *ba, (fuel1 - 1) as nat, (fuel2 - 1) as nat);
                        }
                    },
                    Err(_) => {},
                }
            }
        },
        _ => {},
    }
}

proof fn lemma_apply_mono(env: Map<Var, Node>, f: Node, x: Node, fuel1: nat, fuel2: nat)
    requires
        fuel1 <= fuel2,
        apply_spec(env, f, x, fuel1) != Err::<Node, EvalError>(EvalError::OutOfFuel),
    ensures
        apply_spec(env, f, x, fuel2) == apply_spec(env, f, x, fuel1),
    decreases fuel1, 3int,
{
    reveal_with_fuel(apply_spec, 2);
    match f {
        Node::BuiltIn(b) => lemma_builtin_mono(env, b, x, fuel1, fuel2),
        Node::Partial0(pa, a0) => lemma_partial0_mono(env, pa, *a0, x, fuel1, fuel2),
        Node::Partial1(pa, a0, a1) => lemma_partial1_mono(env, pa, *a0, *a1, x, fuel1, fuel2),
        _ => {},
    }
}

proof fn lemma_builtin_mono(env: Map<Var, Node>, b: BuiltIn, x: Node, fuel1: nat, fuel2: nat)
    requires
        fuel1 <= fuel2,
        apply_builtin_spec(env, b, x, fuel1) != Err::<Node, EvalError>(EvalError::OutOfFuel),
    ensures
        apply_builtin_spec(env, b, x, fuel2) == apply_builtin_spec(env, b, x, fuel1),
    decreases fuel1, 2int,
{
    reveal_with_fuel(apply_builtin_spec, 2);
    let oof = Err::<Node, EvalError>(EvalError::OutOfFuel);
    match b {
        BuiltIn::Inc | BuiltIn::Dec | BuiltIn::Neg | BuiltIn::Pwr2 | BuiltIn::I | BuiltIn::Mod
            | BuiltIn::Dem => {
            if eval_spec(env, x, fuel1) != oof {
                lemma_eval_mono(env, x, fuel1, fuel2);
            }
        },
        BuiltIn::Head => {
            let e = Node::Apply(Box::new(x), Box::new(Node::BuiltIn(BuiltIn::True)));
            if eval_spec(env, e, fuel1) != oof {
                lemma_eval_mono(env, e, fuel1, fuel2);
            }
        },
        BuiltIn::Tail => {
            let e = Node::Apply(Box::new(x), Box::new(Node::BuiltIn(BuiltIn::False)));
            if eval_spec(env, e, fuel1) != oof {
                lemma_eval_mono(env, e, fuel1, fuel2);
            }
        },
        _ => {},
    }
}

proof fn lemma_partial0_mono(
    env: Map<Var, Node>,
    pa: PartialAp,
    a0: Node,
    x: Node,
    fuel1: nat,
    fuel2: nat,
)
    requires
        fuel1 <= fuel2,
        apply_partial0_spec(env, pa, a0, x, fuel1) != Err::<Node, EvalError>(EvalError::OutOfFuel),
    ensures
        apply_partial0_spec(env, pa, a0, x, fuel2) == apply_partial0_spec(env, pa, a0, x, fuel1),
    decreases fuel1, 2int,
{
    reveal_with_fuel(apply_partial0_spec, 2);
    let oof = Err::<Node, EvalError>(EvalError::OutOfFuel);
    match pa {
        PartialAp::Add_0 | PartialAp::Mul_0 | PartialAp::Div_0 | PartialAp::Eq_0
            | PartialAp::Lt_0 => {
            if eval_spec(env, x, fuel1) != oof {
                lemma_eval_mono(env, x, fuel1, fuel2);
                if eval_spec(env, a0, fuel1) != oof {
                    lemma_eval_mono(env, a0, fuel1, fuel2);
                }
            }
        },
        PartialAp::True_0 => {
            if eval_spec(env, a0, fuel1) != oof {
                lemma_eval_mono(env, a0, fuel1, fuel2);
            }
        },
        PartialAp::False_0 => {
            if eval_spec(env, x, fuel1) != oof {
                lemma_eval_mono(env, x, fuel1, fuel2);
            }
        },
        _ => {},
    }
}

proof fn lemma_partial1_mono(
    env: Map<Var, Node>,
    pa: PartialAp,
    a0: Node,
    a1: Node,
    x: Node,
    fuel1: nat,
    fuel2: nat,
)
    requires
        fuel1 <= fuel2,
        apply_partial1_spec(env, pa, a0, a1, x, fuel1) != Err::<Node, EvalError>(
            EvalError::OutOfFuel,
        ),
    ensures
        apply_partial1_spec(env, pa, a0, a1, x, fuel2) == apply_partial1_spec(
            env,
            pa,
            a0,
            a1,
            x,
            fuel1,
        ),
    decreases fuel1, 2int,
{
    reveal_with_fuel(apply_partial1_spec, 2);
    let oof = Err::<Node, EvalError>(EvalError::OutOfFuel);
    match pa {
        PartialAp::S_1 => {
            let e = Node::Apply(
                Box::new(Node::Apply(Box::new(a0), Box::new(x))),
                Box::new(Node::Apply(Box::new(a1), Box::new(x))),
            );
            if eval_spec(env, e, fuel1) != oof {
                lemma_eval_mono(env, e, fuel1, fuel2);
            }
        },
        PartialAp::C_1 => {
            let e = Node::Apply(Box::new(Node::Apply(Box::new(a0), Box::new(x))), Box::new(a1));
            if eval_spec(env, e, fuel1) != oof {
                lemma_eval_mono(env, e, fuel1, fuel2);
            }
        },
        PartialAp::B_1 => {
            let e = Node::Apply(Box::new(a0), Box::new(Node::Apply(Box::new(a1), Box::new(x))));
            if eval_spec(env, e, fuel1) != oof {
                lemma_eval_mono(env, e, fuel1, fuel2);
            }
        },
        PartialAp::Cons_1 => {
            let e = Node::Apply(Box::new(Node::Apply(Box::new(x), Box::new(a0))), Box::new(a1));
            if eval_spec(env, e, fuel1) != oof {
                lemma_eval_mono(env, e, fuel1, fuel2);
            }
        },
        PartialAp::If0_1 => {
            if eval_spec(env, a0, fuel1) != oof {
                lemma_eval_mono(env, a0, fuel1, fuel2);
                match eval_spec(env, a0, fuel1) {
                    Ok(Node::Number(c)) => {
                        if c == 0 {
                            if eval_spec(env, a1, fuel1) != oof {
                                lemma_eval_mono(env, a1, fuel1, fuel2);
                            }
                        } else {
                            if eval_spec(env, x, fuel1) != oof {
                                lemma_eval_mono(env, x, fuel1, fuel2);
                            }
                        }
                    },
                    Ok(_) => {
                        if eval_spec(env, x, fuel1) != oof {
                            lemma_eval_mono(env, x, fuel1, fuel2);
                        }
                    },
                    Err(_) => {},
                }
            }
        },
        _ => {},
    }
}

/// S: `reduce(S f g x)` equals `reduce(Apply(Apply(f, x), Apply(g, x)))`,
/// for arbitrary `f`, `g`, `x`.
pub proof fn lemma_s_combinator(env: Map<Var, Node>, f: Node, g: Node, x: Node, r: Node)
    ensures
        reduces_to(env, ap(ap(ap(Node::BuiltIn(BuiltIn::S), f), g), x), r) <==> reduces_to(
            env,
            ap(ap(f, x), ap(g, x)),
            r,
        ),
{
    let lhs = ap(ap(ap(Node::BuiltIn(BuiltIn::S), f), g), x);
    let rhs = ap(ap(f, x), ap(g, x));
    if reduces_to(env, lhs, r) {
        let fuel = choose|fuel: nat| eval_spec(env, lhs, fuel) == Ok::<Node, EvalError>(r);
        assert(fuel >= 3) by {
            reveal_with_fuel(eval_spec, 4);
        }
        lemma_s_fuel(env, f, g, x, fuel);
        assert(eval_spec(env, rhs, (fuel - 1) as nat) == Ok::<Node, EvalError>(r));
    }
    if reduces_to(env, rhs, r) {
        let fuel = choose|fuel: nat| eval_spec(env, rhs, fuel) == Ok::<Node, EvalError>(r);
        assert(fuel >= 2) by {
            reveal_with_fuel(eval_spec, 3);
        }
        lemma_s_fuel(env, f, g, x, fuel + 1);
        assert(eval_spec(env, lhs, fuel + 1) == Ok::<Node, EvalError>(r));
    }
}

/// C: `reduce(C f g x)` equals `reduce(Apply(Apply(f, x), g))`, for
/// arbitrary `f`, `g`, `x`.
pub proof fn lemma_c_combinator(env: Map<Var, Node>, f: Node, g: Node, x: Node, r: Node)
    ensures
        reduces_to(env, ap(ap(ap(Node::BuiltIn(BuiltIn::C), f), g), x), r) <==> reduces_to(
            env,
            ap(ap(f, x), g),
            r,
        ),
{
    let lhs = ap(ap(ap(Node::BuiltIn(BuiltIn::C), f), g), x);
    let rhs = ap(ap(f, x), g);
    if reduces_to(env, lhs, r) {
        let fuel = choose|fuel: nat| eval_spec(env, lhs, fuel) == Ok::<Node, EvalError>(r);
        assert(fuel >= 3) by {
            reveal_with_fuel(eval_spec, 4);
        }
        lemma_c_fuel(env, f, g, x, fuel);
        assert(eval_spec(env, rhs, (fuel - 1) as nat) == Ok::<Node, EvalError>(r));
    }
    if reduces_to(env, rhs, r) {
        let fuel = choose|fuel: nat| eval_spec(env, rhs, fuel) == Ok::<Node, EvalError>(r);
        assert(fuel >= 2) by {
            reveal_with_fuel(eval_spec, 3);
        }
        lemma_c_fuel(env, f, g, x, fuel + 1);
        assert(eval_spec(env, lhs, fuel + 1) == Ok::<Node, EvalError>(r));
    }
}

/// B: `reduce(B f g x)` equals `reduce(Apply(f, Apply(g, x)))`, for
/// arbitrary `f`, `g`, `x`.
pub proof fn lemma_b_combinator(env: Map<Var, Node>, f: Node, g: Node, x: Node, r: Node)
    ensures
        reduces_to(env, ap(ap(ap(Node::BuiltIn(BuiltIn::B), f), g), x), r) <==> reduces_to(
            env,
            ap(f, ap(g, x)),
            r,
        ),
{
    let lhs = ap(ap(ap(Node::BuiltIn(BuiltIn::B), f), g), x);
    let rhs = ap(f, ap(g, x));
    if reduces_to(env, lhs, r) {
        let fuel = choose|fuel: nat| eval_spec(env, lhs, fuel) == Ok::<Node, EvalError>(r);
        assert(fuel >= 3) by {
            reveal_with_fuel(eval_spec, 4);
        }
        lemma_b_fuel(env, f, g, x, fuel);
        assert(eval_spec(env, rhs, (fuel - 1) as nat) == Ok::<Node, EvalError>(r));
    }
    if reduces_to(env, rhs, r) {
        let fuel = choose|fuel: nat| eval_spec(env, rhs, fuel) == Ok::<Node, EvalError>(r);
        lemma_eval_mono(env, rhs, fuel, fuel + 2);
        lemma_b_fuel(env, f, g, x, fuel + 3);
        assert(eval_spec(env, lhs, fuel + 3) == Ok::<Node, EvalError>(r));
    }
}

/// Comparison: `eq` applied to two equal numbers reduces to the
/// true-selector, so applied to two further arguments it selects the first;
/// on unequal numbers it selects the second.
pub proof fn lemma_eq_selector(
    env: Map<Var, Node>,
    m: i64,
    n: i64,
    a: Node,
    bn: Node,
    fuel: nat,
)
    requires
        fuel >= 4,
    ensures
        m == n ==> eval_spec(
            env,
            ap(ap(ap(ap(Node::BuiltIn(BuiltIn::Eq), Node::Number(m)), Node::Number(n)), a), bn),
            fuel,
        ) == eval_spec(env, a, (fuel - 1) as nat),
        m != n ==> eval_spec(
            env,
            ap(ap(ap(ap(Node::BuiltIn(BuiltIn::Eq), Node::Number(m)), Node::Number(n)), a), bn),
            fuel,
        ) == eval_spec(env, bn, (fuel - 1) as nat),
{
    reveal_with_fuel(eval_spec, 6);
    reveal_with_fuel(apply_spec, 5);
    reveal_with_fuel(apply_builtin_spec, 2);
    reveal_with_fuel(apply_partial0_spec, 2);
    reveal_with_fuel(apply_partial1_spec, 2);
}

/// Comparison: `lt` applied to two numbers reduces to the true-selector
/// when the first is strictly smaller, else to the false-selector.
pub proof fn lemma_lt_selector(
    env: Map<Var, Node>,
    m: i64,
    n: i64,
    a: Node,
    bn: Node,
    fuel: nat,
)
    requires
        fuel >= 4,
    ensures
        m < n ==> eval_spec(
            env,
            ap(ap(ap(ap(Node::BuiltIn(BuiltIn::Lt), Node::Number(m)), Node::Number(n)), a), bn),
            fuel,
        ) == eval_spec(env, a, (fuel - 1) as nat),
        m >= n ==> eval_spec(
            env,
            ap(ap(ap(ap(Node::BuiltIn(BuiltIn::Lt), Node::Number(m)), Node::Number(n)), a), bn),
            fuel,
        ) == eval_spec(env, bn, (fuel - 1) as nat),
{
    reveal_with_fuel(eval_spec, 6);
    reveal_with_fuel(apply_spec, 5);
    reveal_with_fuel(apply_builtin_spec, 2);
    reveal_with_fuel(apply_partial0_spec, 2);
    reveal_with_fuel(apply_partial1_spec, 2);
}

/// Conditional: `if0` on a zero condition reduces as its second argument
/// does; on any other number, as its third.
pub proof fn lemma_if0_fuel(env: Map<Var, Node>, c: i64, t: Node, f: Node, fuel: nat)
    requires
        fuel >= 3,
    ensures
        c == 0 ==> eval_spec(
            env,
            ap(ap(ap(Node::BuiltIn(BuiltIn::If0), Node::Number(c)), t), f),
            fuel,
        ) == eval_spec(env, t, (fuel - 1) as nat),
        c != 0 ==> eval_spec(
            env,
            ap(ap(ap(Node::BuiltIn(BuiltIn::If0), Node::Number(c)), t), f),
            fuel,
        ) == eval_spec(env, f, (fuel - 1) as nat),
{
    reveal_with_fuel(eval_spec, 5);
    reveal_with_fuel(apply_spec, 4);
    reveal_with_fuel(apply_builtin_spec, 2);
    reveal_with_fuel(apply_partial0_spec, 2);
    reveal_with_fuel(apply_partial1_spec, 2);
}

/// Failure: applying a number to anything is a type mismatch, under every
/// sufficient budget — a number is never a function.
pub proof fn lemma_apply_number_fuel(env: Map<Var, Node>, k: i64, x: Node, fuel: nat)
    requires
        fuel >= 1,
    ensures
        eval_spec(env, ap(Node::Number(k), x), fuel) == Err::<Node, EvalError>(
            EvalError::TypeMismatch,
        ),
{
    reveal_with_fuel(eval_spec, 3);
    reveal_with_fuel(apply_spec, 2);
}

/// Failure: applying a number to anything never reduces to a value.
pub proof fn lemma_apply_number_fails(env: Map<Var, Node>, k: i64, x: Node, r: Node)
    ensures
        !reduces_to(env, ap(Node::Number(k), x), r),
{
    assert forall|fuel: nat|
        eval_spec(env, ap(Node::Number(k), x), fuel) != Ok::<Node, EvalError>(r) by {
        if fuel >= 1 {
            lemma_apply_number_fuel(env, k, x, fuel);
        } else {
            reveal_with_fuel(eval_spec, 1);
        }
    }
}

/// Comparison: `eq m n` applied to two further arguments selects the first
/// when the numbers are equal and the second when they are not, in the
/// budget-free sense.
pub proof fn lemma_eq_selects(env: Map<Var, Node>, m: i64, n: i64, a: Node, bn: Node, r: Node)
    ensures
        m == n ==> (reduces_to(
            env,
            ap(ap(ap(ap(Node::BuiltIn(BuiltIn::Eq), Node::Number(m)), Node::Number(n)), a), bn),
            r,
        ) <==> reduces_to(env, a, r)),
        m != n ==> (reduces_to(
            env,
            ap(ap(ap(ap(Node::BuiltIn(BuiltIn::Eq), Node::Number(m)), Node::Number(n)), a), bn),
            r,
        ) <==> reduces_to(env, bn, r)),
{
    let lhs = ap(ap(ap(ap(Node::BuiltIn(BuiltIn::Eq), Node::Number(m)), Node::Number(n)), a), bn);
    let sel = if m == n {
        a
    } else {
        bn
    };
    if reduces_to(env, lhs, r) {
        let fuel = choose|fuel: nat| eval_spec(env, lhs, fuel) == Ok::<Node, EvalError>(r);
        assert(fuel >= 4) by {
            reveal_with_fuel(eval_spec, 5);
        }
        lemma_eq_selector(env, m, n, a, bn, fuel);
        assert(eval_spec(env, sel, (fuel - 1) as nat) == Ok::<Node, EvalError>(r));
    }
    if reduces_to(env, sel, r) {
        let fuel = choose|fuel: nat| eval_spec(env, sel, fuel) == Ok::<Node, EvalError>(r);
        lemma_eval_mono(env, sel, fuel, fuel + 3);
        lemma_eq_selector(env, m, n, a, bn, fuel + 4);
        assert(eval_spec(env, lhs, fuel + 4) == Ok::<Node, EvalError>(r));
    }
}

/// Comparison: `lt m n` applied to two further arguments selects the first
/// when `m` is strictly smaller, else the second, in the budget-free sense.
pub proof fn lemma_lt_selects(env: Map<Var, Node>, m: i64, n: i64, a: Node, bn: Node, r: Node)
    ensures
        m < n ==> (reduces_to(
            env,
            ap(ap(ap(ap(Node::BuiltIn(BuiltIn::Lt), Node::Number(m)), Node::Number(n)), a), bn),
            r,
        ) <==> reduces_to(env, a, r)),
        m >= n ==> (reduces_to(
            env,
            ap(ap(ap(ap(Node::BuiltIn(BuiltIn::Lt), Node::Number(m)), Node::Number(n)), a), bn),
            r,
        ) <==> reduces_to(env, bn, r)),
{
    let lhs = ap(ap(ap(ap(Node::BuiltIn(BuiltIn::Lt), Node::Number(m)), Node::Number(n)), a), bn);
    let sel = if m < n {
        a
    } else {
        bn
    };
    if reduces_to(env, lhs, r) {
        let fuel = choose|fuel: nat| eval_spec(env, lhs, fuel) == Ok::<Node, EvalError>(r);
        assert(fuel >= 4) by {
            reveal_with_fuel(eval_spec, 5);
        }
        lemma_lt_selector(env, m, n, a, bn, fuel);
        assert(eval_spec(env, sel, (fuel - 1) as nat) == Ok::<Node, EvalError>(r));
    }
    if reduces_to(env, sel, r) {
        let fuel = choose|fuel: nat| eval_spec(env, sel, fuel) == Ok::<Node, EvalError>(r);
        lemma_eval_mono(env, sel, fuel, fuel + 3);
        lemma_lt_selector(env, m, n, a, bn, fuel + 4);
        assert(eval_spec(env, lhs, fuel + 4) == Ok::<Node, EvalError>(r));
    }
}

/// Conditional: `if0 c t f` reduces as `t` does when `c` is zero, and as
/// `f` does for any other number, in the budget-free sense.
pub proof fn lemma_if0_conditional(env: Map<Var, Node>, c: i64, t: Node, f: Node, r: Node)
    ensures
        c == 0 ==> (reduces_to(
            env,
            ap(ap(ap(Node::BuiltIn(BuiltIn::If0), Node::Number(c)), t), f),
            r,
        ) <==> reduces_to(env, t, r)),
        c != 0 ==> (reduces_to(
            env,
            ap(ap(ap(Node::BuiltIn(BuiltIn::If0), Node::Number(c)), t), f),
            r,
        ) <==> reduces_to(env, f, r)),
{
    let lhs = ap(ap(ap(Node::BuiltIn(BuiltIn::If0), Node::Number(c)), t), f);
    let sel = if c == 0 {
        t
    } else {
        f
    };
    if reduces_to(env, lhs, r) {
        let fuel = choose|fuel: nat| eval_spec(env, lhs, fuel) == Ok::<Node, EvalError>(r);
        assert(fuel >= 3) by {
            reveal_with_fuel(eval_spec, 4);
        }
        lemma_if0_fuel(env, c, t, f, fuel);
        assert(eval_spec(env, sel, (fuel - 1) as nat) == Ok::<Node, EvalError>(r));
    }
    if reduces_to(env, sel, r) {
        let fuel = choose|fuel: nat| eval_spec(env, sel, fuel) == Ok::<Node, EvalError>(r);
        lemma_eval_mono(env, sel, fuel, fuel + 2);
        lemma_if0_fuel(env, c, t, f, fuel + 3);
        assert(eval_spec(env, lhs, fuel + 3) == Ok::<Node, EvalError>(r));
    }
}

} // verus!
