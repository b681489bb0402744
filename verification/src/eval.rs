//! The reduction engine: the value algebra, the environment of named
//! definitions, the compiler from token streams to expression graphs, and
//! lazy reduction to weak-head-normal-form.
//!
//! The executable engine is verified against a fuel-indexed specification
//! semantics over the mathematical model `Node`: `eval_value` returns exactly
//! what `eval_spec` denotes. Reduction of an ill-founded definition cannot be
//! bounded in advance, so every entry point takes a step budget and reports
//! `OutOfFuel` when it is exhausted; with enough fuel the result is the one
//! the dispatch table prescribes.

use vstd::prelude::*;

use std::collections::HashMap;
use crate::modem;
use crate::modem::NestedList;
use crate::picture::{Picture, PictureView, Point};
use crate::syntax::{Stmt, Token, Var};

verus! {

broadcast use vstd::std_specs::hash::group_hash_axioms;

/// The built-in operators, every one except the binary `ap` itself.
#[derive(Debug, PartialEq, Eq, Clone, Copy, Structural)]
pub enum BuiltIn {
    Inc,
    Dec,
    Add,
    Mul,
    Div,
    Eq,
    Lt,
    Mod,
    Dem,
    Send,
    Neg,
    S,
    C,
    B,
    True,
    False,
    Pwr2,
    I,
    Cons,
    Head,
    Tail,
    Nil,
    IsNil,
    Draw,
    Checkerboard,
    MultiDraw,
    ModList,
    Send2,
    If0,
    Interact,
    StatelessDraw,
    StatefulDraw,
    Galaxy,
}

/// The curry states: a built-in that has received some but not all of its
/// arguments, recording which operator and how many are still pending.
#[allow(non_camel_case_types)]
#[derive(Debug, PartialEq, Eq, Clone, Copy, Structural)]
pub enum PartialAp {
    Add_0,
    Mul_0,
    Div_0,
    Eq_0,
    Lt_0,
    S_1,
    S_0,
    C_1,
    C_0,
    B_1,
    B_0,
    True_0,
    False_0,
    Cons_0,
    Cons_1,
    If0_0,
    If0_1,
}

/// Why a reduction, a compilation or a lookup failed. Every failure is a
/// hard abort of the current reduction, reported to the caller rather than
/// ending the process; failures are deterministic in the input expression.
#[derive(Debug, PartialEq, Eq, Clone, Copy, Structural)]
pub enum EvalError {
    /// A referenced name has no definition in the environment.
    UnboundVariable(Var),
    /// An argument reduced to a shape its operator cannot use.
    TypeMismatch,
    /// A value expected to be a proper cons/nil chain is not one.
    MalformedList,
    /// The divisor reduced to zero.
    DivisionByZero,
    /// An arithmetic result falls outside the signed 64-bit range.
    NumericOverflow,
    /// A built-in recognized by the tokenizer but without a reduction rule
    /// in this core.
    UnsupportedOperation,
    /// The compiler's stack did not hold exactly one node at the end.
    MalformedProgram,
    /// The caller's step budget ran out before a normal form was reached.
    OutOfFuel,
}

/// The mathematical model of a runtime value or unreduced expression node.
#[verifier::ext_equal]
pub enum Node {
    VarRef(Var),
    Number(i64),
    Signal(Seq<bool>),
    Picture(PictureView),
    BuiltIn(BuiltIn),
    Apply(Box<Node>, Box<Node>),
    Partial0(PartialAp, Box<Node>),
    Partial1(PartialAp, Box<Node>, Box<Node>),
}

/// A runtime value or unreduced expression node, owning its children.
#[derive(Debug, PartialEq)]
pub enum Value {
    Var(Var),
    Number(i64),
    Signal(Vec<bool>),
    Picture(Picture),
    BuiltIn(BuiltIn),
    Apply(Box<Value>, Box<Value>),
    Partial0(PartialAp, Box<Value>),
    Partial1(PartialAp, Box<Value>, Box<Value>),
}

/// The model of a value: the same tree with bitstreams and pictures taken
/// to their mathematical content.
pub open spec fn node_of(v: Value) -> Node
    decreases v,
{
    match v {
        Value::Var(n) => Node::VarRef(n),
        Value::Number(n) => Node::Number(n),
        Value::Signal(bits) => Node::Signal(bits@),
        Value::Picture(p) => Node::Picture(p@),
        Value::BuiltIn(b) => Node::BuiltIn(b),
        Value::Apply(f, a) => Node::Apply(Box::new(node_of(*f)), Box::new(node_of(*a))),
        Value::Partial0(pa, a0) => Node::Partial0(pa, Box::new(node_of(*a0))),
        Value::Partial1(pa, a0, a1) => Node::Partial1(
            pa,
            Box::new(node_of(*a0)),
            Box::new(node_of(*a1)),
        ),
    }
}

impl View for Value {
    type V = Node;

    open spec fn view(&self) -> Node {
        node_of(*self)
    }
}

/// A result of the executable engine, seen through the model.
pub open spec fn res_node(r: Result<Value, EvalError>) -> Result<Node, EvalError> {
    match r {
        Ok(v) => Ok(v@),
        Err(e) => Err(e),
    }
}

/// Truncating division, the sign convention of machine division.
pub open spec fn div_trunc(a: int, b: int) -> int {
    let q = modem::abs_of(a) / modem::abs_of(b);
    if (a < 0) == (b < 0) {
        q as int
    } else {
        -(q as int)
    }
}

// ------------------------------------------------------------------
// The specification semantics: a fuel-indexed denotation of reduction.
// ------------------------------------------------------------------

/// Reduces `n` to weak-head-normal-form under `env`, spending at most
/// `fuel` lookup and application steps. Terminal shapes — numbers, signals,
/// pictures, bare built-ins — reduce to themselves for free; a bare curry
/// state is not a redex and is rejected outright.
pub open spec fn eval_spec(env: Map<Var, Node>, n: Node, fuel: nat) -> Result<Node, EvalError>
    decreases fuel, 0int, n,
{
    match n {
        Node::VarRef(name) => {
            if fuel == 0 {
                Err(EvalError::OutOfFuel)
            } else if env.contains_key(name) {
                eval_spec(env, env[name], (fuel - 1) as nat)
            } else {
                Err(EvalError::UnboundVariable(name))
            }
        },
        Node::Apply(f, a) => {
            if fuel == 0 {
                Err(EvalError::OutOfFuel)
            } else {
                match eval_spec(env, *f, (fuel - 1) as nat) {
                    Ok(ef) => apply_spec(env, ef, *a, (fuel - 1) as nat),
                    Err(e) => Err(e),
                }
            }
        },
        Node::Partial0(_, _) => Err(EvalError::TypeMismatch),
        Node::Partial1(_, _, _) => Err(EvalError::TypeMismatch),
        _ => Ok(n),
    }
}

/// Applies an already-reduced head `f` to the unreduced argument `arg`.
pub open spec fn apply_spec(env: Map<Var, Node>, f: Node, arg: Node, fuel: nat) -> Result<
    Node,
    EvalError,
>
    decreases fuel, 3int,
{
    match f {
        Node::BuiltIn(b) => apply_builtin_spec(env, b, arg, fuel),
        Node::Partial0(pa, a0) => apply_partial0_spec(env, pa, *a0, arg, fuel),
        Node::Partial1(pa, a0, a1) => apply_partial1_spec(env, pa, *a0, *a1, arg, fuel),
        _ => Err(EvalError::TypeMismatch),
    }
}

/// One bare built-in applied to one argument: either it fires, or it stores
/// the argument in a curry state for the arguments still to come.
pub open spec fn apply_builtin_spec(env: Map<Var, Node>, b: BuiltIn, arg: Node, fuel: nat) -> Result<
    Node,
    EvalError,
>
    decreases fuel, 2int,
{
    match b {
        BuiltIn::Inc => match eval_spec(env, arg, fuel) {
            Ok(Node::Number(n)) => if n < i64::MAX {
                Ok(Node::Number((n + 1) as i64))
            } else {
                Err(EvalError::NumericOverflow)
            },
            Ok(_) => Err(EvalError::TypeMismatch),
            Err(e) => Err(e),
        },
        BuiltIn::Dec => match eval_spec(env, arg, fuel) {
            Ok(Node::Number(n)) => if n > i64::MIN {
                Ok(Node::Number((n - 1) as i64))
            } else {
                Err(EvalError::NumericOverflow)
            },
            Ok(_) => Err(EvalError::TypeMismatch),
            Err(e) => Err(e),
        },
        BuiltIn::Neg => match eval_spec(env, arg, fuel) {
            Ok(Node::Number(n)) => if n > i64::MIN {
                Ok(Node::Number((-n) as i64))
            } else {
                Err(EvalError::NumericOverflow)
            },
            Ok(_) => Err(EvalError::TypeMismatch),
            Err(e) => Err(e),
        },
        BuiltIn::Pwr2 => match eval_spec(env, arg, fuel) {
            Ok(Node::Number(n)) => if n < 0 {
                Err(EvalError::TypeMismatch)
            } else if n >= 63 {
                Err(EvalError::NumericOverflow)
            } else {
                Ok(Node::Number(modem::pow2(n as nat) as i64))
            },
            Ok(_) => Err(EvalError::TypeMismatch),
            Err(e) => Err(e),
        },
        BuiltIn::Add => Ok(Node::Partial0(PartialAp::Add_0, Box::new(arg))),
        BuiltIn::Mul => Ok(Node::Partial0(PartialAp::Mul_0, Box::new(arg))),
        BuiltIn::Div => Ok(Node::Partial0(PartialAp::Div_0, Box::new(arg))),
        BuiltIn::Eq => Ok(Node::Partial0(PartialAp::Eq_0, Box::new(arg))),
        BuiltIn::Lt => Ok(Node::Partial0(PartialAp::Lt_0, Box::new(arg))),
        BuiltIn::S => Ok(Node::Partial0(PartialAp::S_0, Box::new(arg))),
        BuiltIn::C => Ok(Node::Partial0(PartialAp::C_0, Box::new(arg))),
        BuiltIn::B => Ok(Node::Partial0(PartialAp::B_0, Box::new(arg))),
        BuiltIn::True => Ok(Node::Partial0(PartialAp::True_0, Box::new(arg))),
        BuiltIn::False => Ok(Node::Partial0(PartialAp::False_0, Box::new(arg))),
        BuiltIn::Cons => Ok(Node::Partial0(PartialAp::Cons_0, Box::new(arg))),
        BuiltIn::If0 => Ok(Node::Partial0(PartialAp::If0_0, Box::new(arg))),
        BuiltIn::I => eval_spec(env, arg, fuel),
        BuiltIn::Head => eval_spec(
            env,
            Node::Apply(Box::new(arg), Box::new(Node::BuiltIn(BuiltIn::True))),
            fuel,
        ),
        BuiltIn::Tail => eval_spec(
            env,
            Node::Apply(Box::new(arg), Box::new(Node::BuiltIn(BuiltIn::False))),
            fuel,
        ),
        BuiltIn::Nil => Ok(Node::BuiltIn(BuiltIn::True)),
        BuiltIn::IsNil => match arg {
            Node::BuiltIn(BuiltIn::Nil) => Ok(Node::BuiltIn(BuiltIn::True)),
            _ => Ok(Node::BuiltIn(BuiltIn::False)),
        },
        BuiltIn::Mod => match eval_spec(env, arg, fuel) {
            Ok(Node::Number(n)) => Ok(Node::Signal(modem::encode_num_spec(n as int))),
            Ok(Node::BuiltIn(BuiltIn::Nil)) => Err(EvalError::UnsupportedOperation),
            Ok(Node::Partial1(PartialAp::Cons_1, _, _)) => Err(EvalError::UnsupportedOperation),
            Ok(_) => Err(EvalError::TypeMismatch),
            Err(e) => Err(e),
        },
        BuiltIn::Dem => match eval_spec(env, arg, fuel) {
            Ok(Node::Signal(_)) => Err(EvalError::UnsupportedOperation),
            Ok(_) => Err(EvalError::TypeMismatch),
            Err(e) => Err(e),
        },
        BuiltIn::Draw => match draw_spec(arg) {
            Ok(pv) => Ok(Node::Picture(pv)),
            Err(e) => Err(e),
        },
        BuiltIn::MultiDraw => multidraw_spec(arg),
        _ => Err(EvalError::UnsupportedOperation),
    }
}

/// A curry state holding one argument applied to a second argument.
pub open spec fn apply_partial0_spec(
    env: Map<Var, Node>,
    pa: PartialAp,
    a0: Node,
    arg: Node,
    fuel: nat,
) -> Result<Node, EvalError>
    decreases fuel, 2int,
{
    match pa {
        PartialAp::Add_0 => match eval_spec(env, arg, fuel) {
            Ok(Node::Number(b)) => match eval_spec(env, a0, fuel) {
                Ok(Node::Number(a)) => if i64::MIN <= a + b <= i64::MAX {
                    Ok(Node::Number((a + b) as i64))
                } else {
                    Err(EvalError::NumericOverflow)
                },
                Ok(_) => Err(EvalError::TypeMismatch),
                Err(e) => Err(e),
            },
            Ok(_) => Err(EvalError::TypeMismatch),
            Err(e) => Err(e),
        },
        PartialAp::Mul_0 => match eval_spec(env, arg, fuel) {
            Ok(Node::Number(b)) => match eval_spec(env, a0, fuel) {
                Ok(Node::Number(a)) => if i64::MIN <= a * b <= i64::MAX {
                    Ok(Node::Number((a * b) as i64))
                } else {
                    Err(EvalError::NumericOverflow)
                },
                Ok(_) => Err(EvalError::TypeMismatch),
                Err(e) => Err(e),
            },
            Ok(_) => Err(EvalError::TypeMismatch),
            Err(e) => Err(e),
        },
        PartialAp::Div_0 => match eval_spec(env, arg, fuel) {
            Ok(Node::Number(b)) => match eval_spec(env, a0, fuel) {
                Ok(Node::Number(a)) => if b == 0 {
                    Err(EvalError::DivisionByZero)
                } else if a == i64::MIN && b == -1 {
                    Err(EvalError::NumericOverflow)
                } else {
                    Ok(Node::Number(div_trunc(a as int, b as int) as i64))
                },
                Ok(_) => Err(EvalError::TypeMismatch),
                Err(e) => Err(e),
            },
            Ok(_) => Err(EvalError::TypeMismatch),
            Err(e) => Err(e),
        },
        PartialAp::Eq_0 => match eval_spec(env, arg, fuel) {
            Ok(Node::Number(b)) => match eval_spec(env, a0, fuel) {
                Ok(Node::Number(a)) => if a == b {
                    Ok(Node::BuiltIn(BuiltIn::True))
                } else {
                    Ok(Node::BuiltIn(BuiltIn::False))
                },
                Ok(_) => Err(EvalError::TypeMismatch),
                Err(e) => Err(e),
            },
            Ok(_) => Err(EvalError::TypeMismatch),
            Err(e) => Err(e),
        },
        PartialAp::Lt_0 => match eval_spec(env, arg, fuel) {
            Ok(Node::Number(b)) => match eval_spec(env, a0, fuel) {
                Ok(Node::Number(a)) => if a < b {
                    Ok(Node::BuiltIn(BuiltIn::True))
                } else {
                    Ok(Node::BuiltIn(BuiltIn::False))
                },
                Ok(_) => Err(EvalError::TypeMismatch),
                Err(e) => Err(e),
            },
            Ok(_) => Err(EvalError::TypeMismatch),
            Err(e) => Err(e),
        },
        PartialAp::S_0 => Ok(Node::Partial1(PartialAp::S_1, Box::new(a0), Box::new(arg))),
        PartialAp::C_0 => Ok(Node::Partial1(PartialAp::C_1, Box::new(a0), Box::new(arg))),
        PartialAp::B_0 => Ok(Node::Partial1(PartialAp::B_1, Box::new(a0), Box::new(arg))),
        PartialAp::Cons_0 => Ok(Node::Partial1(PartialAp::Cons_1, Box::new(a0), Box::new(arg))),
        PartialAp::If0_0 => Ok(Node::Partial1(PartialAp::If0_1, Box::new(a0), Box::new(arg))),
        PartialAp::True_0 => eval_spec(env, a0, fuel),
        PartialAp::False_0 => eval_spec(env, arg, fuel),
        _ => Err(EvalError::TypeMismatch),
    }
}

/// A curry state holding two arguments applied to its final argument.
pub open spec fn apply_partial1_spec(
    env: Map<Var, Node>,
    pa: PartialAp,
    a0: Node,
    a1: Node,
    arg: Node,
    fuel: nat,
) -> Result<Node, EvalError>
    decreases fuel, 2int,
{
    match pa {
        PartialAp::S_1 => eval_spec(
            env,
            Node::Apply(
                Box::new(Node::Apply(Box::new(a0), Box::new(arg))),
                Box::new(Node::Apply(Box::new(a1), Box::new(arg))),
            ),
            fuel,
        ),
        PartialAp::C_1 => eval_spec(
            env,
            Node::Apply(Box::new(Node::Apply(Box::new(a0), Box::new(arg))), Box::new(a1)),
            fuel,
        ),
        PartialAp::B_1 => eval_spec(
            env,
            Node::Apply(Box::new(a0), Box::new(Node::Apply(Box::new(a1), Box::new(arg)))),
            fuel,
        ),
        PartialAp::Cons_1 => eval_spec(
            env,
            Node::Apply(Box::new(Node::Apply(Box::new(arg), Box::new(a0))), Box::new(a1)),
            fuel,
        ),
        PartialAp::If0_1 => match eval_spec(env, a0, fuel) {
            Ok(Node::Number(c)) => if c == 0 {
                eval_spec(env, a1, fuel)
            } else {
                eval_spec(env, arg, fuel)
            },
            Ok(_) => eval_spec(env, arg, fuel),
            Err(e) => Err(e),
        },
        _ => Err(EvalError::TypeMismatch),
    }
}

// ------------------------------------------------------------------
// List interpretation and drawing.
// ------------------------------------------------------------------

/// Reads a node as nested list structure, without reducing: a list is
/// `nil` or a syntactic application of `cons` to a head and a tail.
pub open spec fn nested_of_spec(n: Node) -> Result<NestedList, EvalError>
    decreases n,
{
    match n {
        Node::Apply(f0, arg0) => match *f0 {
            Node::Apply(f1, arg1) => match *f1 {
                Node::BuiltIn(BuiltIn::Cons) => match nested_of_spec(*arg1) {
                    Ok(a) => match nested_of_spec(*arg0) {
                        Ok(b) => Ok(NestedList::Cons(Box::new(a), Box::new(b))),
                        Err(e) => Err(e),
                    },
                    Err(e) => Err(e),
                },
                _ => Err(EvalError::MalformedList),
            },
            _ => Err(EvalError::MalformedList),
        },
        Node::BuiltIn(BuiltIn::Nil) => Ok(NestedList::Nil),
        Node::Number(v) => Ok(NestedList::Number(v)),
        _ => Err(EvalError::MalformedList),
    }
}

/// One point added to a picture: bounds widened to cover it, point appended.
pub open spec fn picture_add_spec(v: PictureView, x: u32, y: u32) -> PictureView {
    PictureView {
        width: if x >= v.width {
            (x + 1) as u32
        } else {
            v.width
        },
        height: if y >= v.height {
            (y + 1) as u32
        } else {
            v.height
        },
        points: v.points.push(Point { x, y }),
    }
}

/// The empty picture.
pub open spec fn empty_picture_spec() -> PictureView {
    PictureView { width: 0, height: 0, points: Seq::empty() }
}

/// Adds every point of a decoded list of coordinate pairs to `v`, in order.
/// Each element must be a pair of numbers within the coordinate range.
pub open spec fn draw_list_spec(v: PictureView, l: NestedList) -> Result<PictureView, EvalError>
    decreases l,
{
    match l {
        NestedList::Nil => Ok(v),
        NestedList::Number(_) => Err(EvalError::MalformedList),
        NestedList::Cons(head, tail) => match *head {
            NestedList::Cons(x, y) => match (*x, *y) {
                (NestedList::Number(xv), NestedList::Number(yv)) => if 0 <= xv < u32::MAX
                    && 0 <= yv < u32::MAX {
                    draw_list_spec(picture_add_spec(v, xv as u32, yv as u32), *tail)
                } else {
                    Err(EvalError::MalformedList)
                },
                _ => Err(EvalError::MalformedList),
            },
            _ => Err(EvalError::MalformedList),
        },
    }
}

/// The picture drawn from a node holding a list of coordinate pairs.
pub open spec fn draw_spec(n: Node) -> Result<PictureView, EvalError> {
    match nested_of_spec(n) {
        Ok(l) => draw_list_spec(empty_picture_spec(), l),
        Err(e) => Err(e),
    }
}

/// A cons-list of point-lists turned into a cons-list of pictures,
/// preserving list shape and order.
pub open spec fn multidraw_spec(n: Node) -> Result<Node, EvalError>
    decreases n,
{
    match n {
        Node::Apply(f0, arg0) => match *f0 {
            Node::Apply(f1, arg1) => match *f1 {
                Node::BuiltIn(BuiltIn::Cons) => match draw_spec(*arg1) {
                    Ok(pv) => match multidraw_spec(*arg0) {
                        Ok(rest) => Ok(
                            Node::Apply(
                                Box::new(
                                    Node::Apply(
                                        Box::new(Node::BuiltIn(BuiltIn::Cons)),
                                        Box::new(Node::Picture(pv)),
                                    ),
                                ),
                                Box::new(rest),
                            ),
                        ),
                        Err(e) => Err(e),
                    },
                    Err(e) => Err(e),
                },
                _ => Err(EvalError::MalformedList),
            },
            _ => Err(EvalError::MalformedList),
        },
        Node::BuiltIn(BuiltIn::Nil) => Ok(Node::BuiltIn(BuiltIn::Nil)),
        _ => Err(EvalError::MalformedList),
    }
}

// ------------------------------------------------------------------
// The compiler: a reverse-order stack machine over one token sequence.
// ------------------------------------------------------------------

/// The leaf node a terminal token denotes.
pub open spec fn leaf_spec(t: Token) -> Node {
    match t {
        Token::Var(v) => Node::VarRef(v),
        Token::Number(n) => Node::Number(n),
        Token::True => Node::BuiltIn(BuiltIn::True),
        Token::False => Node::BuiltIn(BuiltIn::False),
        Token::Nil => Node::BuiltIn(BuiltIn::Nil),
        Token::Inc => Node::BuiltIn(BuiltIn::Inc),
        Token::Dec => Node::BuiltIn(BuiltIn::Dec),
        Token::Add => Node::BuiltIn(BuiltIn::Add),
        Token::Mul => Node::BuiltIn(BuiltIn::Mul),
        Token::Div => Node::BuiltIn(BuiltIn::Div),
        Token::Eq => Node::BuiltIn(BuiltIn::Eq),
        Token::Lt => Node::BuiltIn(BuiltIn::Lt),
        Token::Mod => Node::BuiltIn(BuiltIn::Mod),
        Token::Dem => Node::BuiltIn(BuiltIn::Dem),
        Token::Send => Node::BuiltIn(BuiltIn::Send),
        Token::Neg => Node::BuiltIn(BuiltIn::Neg),
        Token::S => Node::BuiltIn(BuiltIn::S),
        Token::C => Node::BuiltIn(BuiltIn::C),
        Token::B => Node::BuiltIn(BuiltIn::B),
        Token::Pwr2 => Node::BuiltIn(BuiltIn::Pwr2),
        Token::I => Node::BuiltIn(BuiltIn::I),
        Token::Cons => Node::BuiltIn(BuiltIn::Cons),
        Token::Head => Node::BuiltIn(BuiltIn::Head),
        Token::Tail => Node::BuiltIn(BuiltIn::Tail),
        Token::IsNil => Node::BuiltIn(BuiltIn::IsNil),
        Token::Draw => Node::BuiltIn(BuiltIn::Draw),
        Token::Checkerboard => Node::BuiltIn(BuiltIn::Checkerboard),
        Token::MultiDraw => Node::BuiltIn(BuiltIn::MultiDraw),
        Token::ModList => Node::BuiltIn(BuiltIn::ModList),
        Token::Send2 => Node::BuiltIn(BuiltIn::Send2),
        Token::If0 => Node::BuiltIn(BuiltIn::If0),
        Token::Interact => Node::BuiltIn(BuiltIn::Interact),
        Token::StatelessDraw => Node::BuiltIn(BuiltIn::StatelessDraw),
        Token::StatefulDraw => Node::BuiltIn(BuiltIn::StatefulDraw),
        Token::Galaxy => Node::BuiltIn(BuiltIn::Galaxy),
        Token::Ap => Node::BuiltIn(BuiltIn::I),  // never consulted: `Ap` is handled by the stack rule
    }
}

/// One compiler step: a terminal token pushes its leaf; `Ap` pops the
/// function `x` and the argument `v` and pushes `Apply(x, v)`.
pub open spec fn compile_step(t: Token, stack: Seq<Node>) -> Option<Seq<Node>> {
    match t {
        Token::Ap => if stack.len() >= 2 {
            Some(
                stack.take(stack.len() - 2).push(
                    Node::Apply(
                        Box::new(stack[stack.len() - 1]),
                        Box::new(stack[stack.len() - 2]),
                    ),
                ),
            )
        } else {
            None
        },
        _ => Some(stack.push(leaf_spec(t))),
    }
}

/// Runs the compiler over `tokens` processed in reverse order, threading
/// the stack.
pub open spec fn compile_seq(tokens: Seq<Token>, stack: Seq<Node>) -> Option<Seq<Node>>
    decreases tokens.len(),
{
    if tokens.len() == 0 {
        Some(stack)
    } else {
        match compile_step(tokens.last(), stack) {
            Some(stack2) => compile_seq(tokens.drop_last(), stack2),
            None => None,
        }
    }
}

/// The expression graph of one definition body, if the token sequence is
/// well formed: the run must end with exactly one node on the stack.
pub open spec fn compile_spec(tokens: Seq<Token>) -> Option<Node> {
    match compile_seq(tokens, Seq::empty()) {
        Some(stack) => if stack.len() == 1 {
            Some(stack[0])
        } else {
            None
        },
        None => None,
    }
}

// ------------------------------------------------------------------
// Executable helpers.
// ------------------------------------------------------------------

/// A deep copy of a bit vector.
fn dup_bits(v: &Vec<bool>) -> (r: Vec<bool>)
    ensures
        r@ == v@,
{
    let mut out: Vec<bool> = Vec::new();
    let mut i: usize = 0;
    while i < v.len()
        invariant
            0 <= i <= v@.len(),
            out@ == v@.take(i as int),
        decreases v@.len() - i,
    {
        proof {
            assert(v@.take(i + 1).drop_last() =~= v@.take(i as int));
        }
        out.push(v[i]);
        i = i + 1;
    }
    proof {
        assert(v@.take(v@.len() as int) =~= v@);
    }
    out
}

/// A deep copy of a value tree.
fn dup_value(v: &Value) -> (r: Value)
    ensures
        r@ == v@,
    decreases v,
{
    match v {
        Value::Var(n) => Value::Var(*n),
        Value::Number(n) => Value::Number(*n),
        Value::Signal(bits) => Value::Signal(dup_bits(bits)),
        Value::Picture(p) => Value::Picture(p.clone()),
        Value::BuiltIn(b) => Value::BuiltIn(*b),
        Value::Apply(f, a) => Value::Apply(Box::new(dup_value(f)), Box::new(dup_value(a))),
        Value::Partial0(pa, a0) => Value::Partial0(*pa, Box::new(dup_value(a0))),
        Value::Partial1(pa, a0, a1) => Value::Partial1(
            *pa,
            Box::new(dup_value(a0)),
            Box::new(dup_value(a1)),
        ),
    }
}

impl Clone for Value {
    /// A clone denotes the same node as the original.
    fn clone(&self) -> (res: Self)
        ensures
            res@ == self@,
    {
        dup_value(self)
    }
}

/// Addition with an exact overflow report.
fn add_i64(a: i64, b: i64) -> (r: Option<i64>)
    ensures
        i64::MIN <= a + b <= i64::MAX ==> r == Some((a + b) as i64),
        !(i64::MIN <= a + b <= i64::MAX) ==> r is None,
{
    if b >= 0 {
        if a <= i64::MAX - b {
            Some(a + b)
        } else {
            None
        }
    } else {
        if a >= i64::MIN - b {
            Some(a + b)
        } else {
            None
        }
    }
}

/// Multiplication with an exact overflow report.
fn mul_i64(a: i64, b: i64) -> (r: Option<i64>)
    ensures
        i64::MIN <= a * b <= i64::MAX ==> r == Some((a * b) as i64),
        !(i64::MIN <= a * b <= i64::MAX) ==> r is None,
{
    proof {
        assert(i64::MIN as int * i64::MIN as int <= i128::MAX as int) by (nonlinear_arith);
        assert((a as int) * (b as int) <= i128::MAX as int && i128::MIN as int <= (a as int) * (
        b as int)) by (nonlinear_arith)
            requires
                i64::MIN <= a <= i64::MAX,
                i64::MIN <= b <= i64::MAX,
        ;
    }
    let p: i128 = (a as i128) * (b as i128);
    if (i64::MIN as i128) <= p && p <= (i64::MAX as i128) {
        Some(p as i64)
    } else {
        None
    }
}

/// Truncating division of machine integers.
fn div_i64(a: i64, b: i64) -> (r: i64)
    requires
        b != 0,
        !(a == i64::MIN && b == -1),
    ensures
        r as int == div_trunc(a as int, b as int),
{
    let ma: u64 = if a >= 0 {
        a as u64
    } else {
        ((-(a + 1)) as u64) + 1
    };
    let mb: u64 = if b >= 0 {
        b as u64
    } else {
        ((-(b + 1)) as u64) + 1
    };
    assert(ma as nat == modem::abs_of(a as int));
    assert(mb as nat == modem::abs_of(b as int));
    let q: u64 = ma / mb;
    proof {
        assert(q as nat == ma as nat / mb as nat);
        assert(q <= ma) by (nonlinear_arith)
            requires
                mb >= 1,
                q == ma / mb,
        ;
        if ma == 0x8000_0000_0000_0000u64 {
            // a is the least value, so b is not a unit of the same sign
            assert(b != -1);
            if mb >= 2 {
                assert(q <= ma / 2) by (nonlinear_arith)
                    requires
                        mb >= 2,
                        q == ma / mb,
                ;
            }
        }
    }
    if (a >= 0) == (b >= 0) {
        assert(q <= i64::MAX as u64);
        q as i64
    } else {
        if q == 0x8000_0000_0000_0000u64 {
            i64::MIN
        } else {
            -(q as i64)
        }
    }
}

/// Two raised to a small power.
fn pow2_i64(n: i64) -> (r: i64)
    requires
        0 <= n < 63,
    ensures
        r >= 1,
        r as nat == modem::pow2(n as nat),
{
    let mut acc: i64 = 1;
    let mut j: i64 = 0;
    while j < n
        invariant
            0 <= j <= n < 63,
            acc as nat == modem::pow2(j as nat),
            acc >= 1,
        decreases n - j,
    {
        proof {
            modem::lemma_pow2_63();
            modem::lemma_pow2_increases((j + 1) as nat, 62);
        }
        acc = acc * 2;
        j = j + 1;
    }
    acc
}

// ------------------------------------------------------------------
// The engine.
// ------------------------------------------------------------------

/// The environment of named definitions: populated by `interpret`, read by
/// reduction. Its model is the map from each name to the node it denotes.
#[derive(Debug)]
pub struct State {
    vars: HashMap<Var, Value>,
}

impl View for State {
    type V = Map<Var, Node>;

    closed spec fn view(&self) -> Map<Var, Node> {
        self.vars@.map_values(|v: Value| v@)
    }
}

impl State {
    /// An empty environment.
    pub fn new() -> (r: Self)
        ensures
            r@ == Map::<Var, Node>::empty(),
    {
        let r = State { vars: HashMap::new() };
        proof {
            assert(r@ =~= Map::<Var, Node>::empty());
        }
        r
    }

    /// Compiles one definition and stores it under its name; a malformed
    /// token sequence is reported and leaves the environment unchanged.
    pub fn interpret(&mut self, stmt: Stmt) -> (r: Result<(), EvalError>)
        ensures
            match compile_spec(stmt.code@) {
                Some(n) => r == Ok::<(), EvalError>(()) && final(self)@ == old(self)@.insert(
                    stmt.var,
                    n,
                ),
                None => r == Err::<(), EvalError>(EvalError::MalformedProgram) && final(self)@
                    == old(self)@,
            },
    {
        let Stmt { var, code } = stmt;
        match self.compile(code) {
            Ok(v) => {
                let ghost n = v@;
                self.vars.insert(var, v);
                proof {
                    assert(self@ =~= old(self)@.insert(var, n));
                }
                Ok(())
            },
            Err(e) => Err(e),
        }
    }

    /// Builds the expression graph of one definition body: tokens are
    /// processed in reverse, terminals push leaves, `Ap` pops the function
    /// and the argument; exactly one node must remain.
    pub fn compile(&self, code: Vec<Token>) -> (r: Result<Value, EvalError>)
        ensures
            match compile_spec(code@) {
                Some(n) => r matches Ok(v) && v@ == n,
                None => r == Err::<Value, EvalError>(EvalError::MalformedProgram),
            },
    {
        let ghost tokens = code@;
        let mut stack: Vec<Value> = Vec::new();
        let mut i: usize = code.len();
        proof {
            assert(tokens.take(i as int) =~= tokens);
            assert(stack@.map_values(|v: Value| v@) =~= Seq::<Node>::empty());
        }
        while i > 0
            invariant
                0 <= i <= tokens.len(),
                code@ == tokens,
                compile_seq(tokens.take(i as int), stack@.map_values(|v: Value| v@)) == compile_seq(
                    tokens,
                    Seq::<Node>::empty(),
                ),
            decreases i,
        {
            i = i - 1;
            proof {
                assert(tokens.take(i + 1).drop_last() =~= tokens.take(i as int));
                assert(tokens.take(i + 1).last() == tokens[i as int]);
            }
            let ghost pre = stack@.map_values(|v: Value| v@);
            let t = code[i];
            match t {
                Token::Ap => {
                    if stack.len() < 2 {
                        proof {
                            assert(compile_step(tokens[i as int], pre) is None);
                        }
                        return Err(EvalError::MalformedProgram);
                    }
                    let x = stack.pop().unwrap();
                    let v = stack.pop().unwrap();
                    stack.push(Value::Apply(Box::new(x), Box::new(v)));
                    proof {
                        assert(stack@.map_values(|v: Value| v@) =~= compile_step(
                            tokens[i as int],
                            pre,
                        ).unwrap());
                    }
                },
                _ => {
                    let leaf = token_leaf(t);
                    stack.push(leaf);
                    proof {
                        assert(stack@.map_values(|v: Value| v@) =~= compile_step(
                            tokens[i as int],
                            pre,
                        ).unwrap());
                    }
                },
            }
        }
        proof {
            assert(tokens.take(0) =~= Seq::<Token>::empty());
        }
        if stack.len() == 1 {
            let v = stack.pop().unwrap();
            Ok(v)
        } else {
            Err(EvalError::MalformedProgram)
        }
    }

    /// Reduces the definition stored under `var`, within `fuel` steps.
    pub fn eval(&self, var: Var, fuel: u64) -> (r: Result<Value, EvalError>)
        ensures
            res_node(r) == (if self@.contains_key(var) {
                eval_spec(self@, self@[var], fuel as nat)
            } else {
                Err::<Node, EvalError>(EvalError::UnboundVariable(var))
            }),
    {
        match self.vars.get(&var) {
            Some(v) => {
                let copy = dup_value(v);
                self.eval_value(copy, fuel)
            },
            None => Err(EvalError::UnboundVariable(var)),
        }
    }

    /// Reduces `val` to weak-head-normal-form, within `fuel` steps: the
    /// result is exactly the denotation `eval_spec` gives it.
    pub fn eval_value(&self, val: Value, fuel: u64) -> (r: Result<Value, EvalError>)
        ensures
            res_node(r) == eval_spec(self@, val@, fuel as nat),
        decreases fuel, 0int,
    {
        match val {
            Value::Var(name) => {
                if fuel == 0 {
                    return Err(EvalError::OutOfFuel);
                }
                match self.vars.get(&name) {
                    Some(v) => {
                        let copy = dup_value(v);
                        self.eval_value(copy, fuel - 1)
                    },
                    None => Err(EvalError::UnboundVariable(name)),
                }
            },
            Value::Apply(f, arg) => {
                if fuel == 0 {
                    return Err(EvalError::OutOfFuel);
                }
                match self.eval_value(*f, fuel - 1) {
                    Ok(ef) => self.apply_value(ef, *arg, fuel - 1),
                    Err(e) => Err(e),
                }
            },
            Value::Partial0(_, _) => Err(EvalError::TypeMismatch),
            Value::Partial1(_, _, _) => Err(EvalError::TypeMismatch),
            other => Ok(other),
        }
    }

    /// Applies a reduced head to an unreduced argument.
    fn apply_value(&self, func: Value, arg: Value, fuel: u64) -> (r: Result<Value, EvalError>)
        ensures
            res_node(r) == apply_spec(self@, func@, arg@, fuel as nat),
        decreases fuel, 3int,
    {
        match func {
            Value::BuiltIn(b) => self.apply_builtin(b, arg, fuel),
            Value::Partial0(pa, a0) => self.apply_partial0(pa, *a0, arg, fuel),
            Value::Partial1(pa, a0, a1) => self.apply_partial1(pa, *a0, *a1, arg, fuel),
            _ => Err(EvalError::TypeMismatch),
        }
    }

    /// One bare built-in applied to one argument.
    #[verifier::rlimit(100)]
    fn apply_builtin(&self, b: BuiltIn, arg: Value, fuel: u64) -> (r: Result<Value, EvalError>)
        ensures
            res_node(r) == apply_builtin_spec(self@, b, arg@, fuel as nat),
        decreases fuel, 2int,
    {
        proof {
            reveal_with_fuel(node_of, 5);
        }
        match b {
            BuiltIn::Inc => match self.eval_value(arg, fuel) {
                Ok(Value::Number(n)) => match add_i64(n, 1) {
                    Some(v) => Ok(Value::Number(v)),
                    None => Err(EvalError::NumericOverflow),
                },
                Ok(_) => Err(EvalError::TypeMismatch),
                Err(e) => Err(e),
            },
            BuiltIn::Dec => match self.eval_value(arg, fuel) {
                Ok(Value::Number(n)) => if n > i64::MIN {
                    Ok(Value::Number(n - 1))
                } else {
                    Err(EvalError::NumericOverflow)
                },
                Ok(_) => Err(EvalError::TypeMismatch),
                Err(e) => Err(e),
            },
            BuiltIn::Neg => match self.eval_value(arg, fuel) {
                Ok(Value::Number(n)) => if n > i64::MIN {
                    Ok(Value::Number(-n))
                } else {
                    Err(EvalError::NumericOverflow)
                },
                Ok(_) => Err(EvalError::TypeMismatch),
                Err(e) => Err(e),
            },
            BuiltIn::Pwr2 => match self.eval_value(arg, fuel) {
                Ok(Value::Number(n)) => if n < 0 {
                    Err(EvalError::TypeMismatch)
                } else if n >= 63 {
                    Err(EvalError::NumericOverflow)
                } else {
                    Ok(Value::Number(pow2_i64(n)))
                },
                Ok(_) => Err(EvalError::TypeMismatch),
                Err(e) => Err(e),
            },
            BuiltIn::Add => Ok(Value::Partial0(PartialAp::Add_0, Box::new(arg))),
            BuiltIn::Mul => Ok(Value::Partial0(PartialAp::Mul_0, Box::new(arg))),
            BuiltIn::Div => Ok(Value::Partial0(PartialAp::Div_0, Box::new(arg))),
            BuiltIn::Eq => Ok(Value::Partial0(PartialAp::Eq_0, Box::new(arg))),
            BuiltIn::Lt => Ok(Value::Partial0(PartialAp::Lt_0, Box::new(arg))),
            BuiltIn::S => Ok(Value::Partial0(PartialAp::S_0, Box::new(arg))),
            BuiltIn::C => Ok(Value::Partial0(PartialAp::C_0, Box::new(arg))),
            BuiltIn::B => Ok(Value::Partial0(PartialAp::B_0, Box::new(arg))),
            BuiltIn::True => Ok(Value::Partial0(PartialAp::True_0, Box::new(arg))),
            BuiltIn::False => Ok(Value::Partial0(PartialAp::False_0, Box::new(arg))),
            BuiltIn::Cons => Ok(Value::Partial0(PartialAp::Cons_0, Box::new(arg))),
            BuiltIn::If0 => Ok(Value::Partial0(PartialAp::If0_0, Box::new(arg))),
            BuiltIn::I => self.eval_value(arg, fuel),
            BuiltIn::Head => self.eval_value(
                Value::Apply(Box::new(arg), Box::new(Value::BuiltIn(BuiltIn::True))),
                fuel,
            ),
            BuiltIn::Tail => self.eval_value(
                Value::Apply(Box::new(arg), Box::new(Value::BuiltIn(BuiltIn::False))),
                fuel,
            ),
            BuiltIn::Nil => Ok(Value::BuiltIn(BuiltIn::True)),
            BuiltIn::IsNil => match arg {
                Value::BuiltIn(BuiltIn::Nil) => Ok(Value::BuiltIn(BuiltIn::True)),
                _ => Ok(Value::BuiltIn(BuiltIn::False)),
            },
            BuiltIn::Mod => match self.eval_value(arg, fuel) {
                Ok(Value::Number(n)) => Ok(Value::Signal(modem::encode_number(n))),
                Ok(Value::BuiltIn(BuiltIn::Nil)) => Err(EvalError::UnsupportedOperation),
                Ok(Value::Partial1(PartialAp::Cons_1, _, _)) => Err(
                    EvalError::UnsupportedOperation,
                ),
                Ok(_) => Err(EvalError::TypeMismatch),
                Err(e) => Err(e),
            },
            BuiltIn::Dem => match self.eval_value(arg, fuel) {
                Ok(Value::Signal(_)) => Err(EvalError::UnsupportedOperation),
                Ok(_) => Err(EvalError::TypeMismatch),
                Err(e) => Err(e),
            },
            BuiltIn::Draw => match self.eval_draw(arg) {
                Ok(p) => Ok(Value::Picture(p)),
                Err(e) => Err(e),
            },
            BuiltIn::MultiDraw => self.eval_multidraw(arg),
            _ => Err(EvalError::UnsupportedOperation),
        }
    }

    /// A curry state holding one argument applied to a second argument.
    fn apply_partial0(&self, pa: PartialAp, a0: Value, arg: Value, fuel: u64) -> (r: Result<
        Value,
        EvalError,
    >)
        ensures
            res_node(r) == apply_partial0_spec(self@, pa, a0@, arg@, fuel as nat),
        decreases fuel, 2int,
    {
        match pa {
            PartialAp::Add_0 => match self.eval_value(arg, fuel) {
                Ok(Value::Number(bn)) => match self.eval_value(a0, fuel) {
                    Ok(Value::Number(an)) => match add_i64(an, bn) {
                        Some(v) => Ok(Value::Number(v)),
                        None => Err(EvalError::NumericOverflow),
                    },
                    Ok(_) => Err(EvalError::TypeMismatch),
                    Err(e) => Err(e),
                },
                Ok(_) => Err(EvalError::TypeMismatch),
                Err(e) => Err(e),
            },
            PartialAp::Mul_0 => match self.eval_value(arg, fuel) {
                Ok(Value::Number(bn)) => match self.eval_value(a0, fuel) {
                    Ok(Value::Number(an)) => match mul_i64(an, bn) {
                        Some(v) => Ok(Value::Number(v)),
                        None => Err(EvalError::NumericOverflow),
                    },
                    Ok(_) => Err(EvalError::TypeMismatch),
                    Err(e) => Err(e),
                },
                Ok(_) => Err(EvalError::TypeMismatch),
                Err(e) => Err(e),
            },
            PartialAp::Div_0 => match self.eval_value(arg, fuel) {
                Ok(Value::Number(bn)) => match self.eval_value(a0, fuel) {
                    Ok(Value::Number(an)) => if bn == 0 {
                        Err(EvalError::DivisionByZero)
                    } else if an == i64::MIN && bn == -1 {
                        Err(EvalError::NumericOverflow)
                    } else {
                        Ok(Value::Number(div_i64(an, bn)))
                    },
                    Ok(_) => Err(EvalError::TypeMismatch),
                    Err(e) => Err(e),
                },
                Ok(_) => Err(EvalError::TypeMismatch),
                Err(e) => Err(e),
            },
            PartialAp::Eq_0 => match self.eval_value(arg, fuel) {
                Ok(Value::Number(bn)) => match self.eval_value(a0, fuel) {
                    Ok(Value::Number(an)) => if an == bn {
                        Ok(Value::BuiltIn(BuiltIn::True))
                    } else {
                        Ok(Value::BuiltIn(BuiltIn::False))
                    },
                    Ok(_) => Err(EvalError::TypeMismatch),
                    Err(e) => Err(e),
                },
                Ok(_) => Err(EvalError::TypeMismatch),
                Err(e) => Err(e),
            },
            PartialAp::Lt_0 => match self.eval_value(arg, fuel) {
                Ok(Value::Number(bn)) => match self.eval_value(a0, fuel) {
                    Ok(Value::Number(an)) => if an < bn {
                        Ok(Value::BuiltIn(BuiltIn::True))
                    } else {
                        Ok(Value::BuiltIn(BuiltIn::False))
                    },
                    Ok(_) => Err(EvalError::TypeMismatch),
                    Err(e) => Err(e),
                },
                Ok(_) => Err(EvalError::TypeMismatch),
                Err(e) => Err(e),
            },
            PartialAp::S_0 => Ok(Value::Partial1(PartialAp::S_1, Box::new(a0), Box::new(arg))),
            PartialAp::C_0 => Ok(Value::Partial1(PartialAp::C_1, Box::new(a0), Box::new(arg))),
            PartialAp::B_0 => Ok(Value::Partial1(PartialAp::B_1, Box::new(a0), Box::new(arg))),
            PartialAp::Cons_0 => Ok(
                Value::Partial1(PartialAp::Cons_1, Box::new(a0), Box::new(arg)),
            ),
            PartialAp::If0_0 => Ok(Value::Partial1(PartialAp::If0_1, Box::new(a0), Box::new(arg))),
            PartialAp::True_0 => self.eval_value(a0, fuel),
            PartialAp::False_0 => self.eval_value(arg, fuel),
            _ => Err(EvalError::TypeMismatch),
        }
    }

    /// A curry state holding two arguments applied to its final argument.
    fn apply_partial1(&self, pa: PartialAp, a0: Value, a1: Value, arg: Value, fuel: u64) -> (r:
        Result<Value, EvalError>)
        ensures
            res_node(r) == apply_partial1_spec(self@, pa, a0@, a1@, arg@, fuel as nat),
        decreases fuel, 2int,
    {
        proof {
            reveal_with_fuel(node_of, 5);
        }
        match pa {
            PartialAp::S_1 => {
                let arg2 = dup_value(&arg);
                self.eval_value(
                    Value::Apply(
                        Box::new(Value::Apply(Box::new(a0), Box::new(arg))),
                        Box::new(Value::Apply(Box::new(a1), Box::new(arg2))),
                    ),
                    fuel,
                )
            },
            PartialAp::C_1 => self.eval_value(
                Value::Apply(
                    Box::new(Value::Apply(Box::new(a0), Box::new(arg))),
                    Box::new(a1),
                ),
                fuel,
            ),
            PartialAp::B_1 => self.eval_value(
                Value::Apply(
                    Box::new(a0),
                    Box::new(Value::Apply(Box::new(a1), Box::new(arg))),
                ),
                fuel,
            ),
            PartialAp::Cons_1 => self.eval_value(
                Value::Apply(
                    Box::new(Value::Apply(Box::new(arg), Box::new(a0))),
                    Box::new(a1),
                ),
                fuel,
            ),
            PartialAp::If0_1 => match self.eval_value(a0, fuel) {
                Ok(Value::Number(c)) => if c == 0 {
                    self.eval_value(a1, fuel)
                } else {
                    self.eval_value(arg, fuel)
                },
                Ok(_) => self.eval_value(arg, fuel),
                Err(e) => Err(e),
            },
            _ => Err(EvalError::TypeMismatch),
        }
    }

    /// Reads a value as nested list structure, without reducing.
    fn eval_nested_list(&self, val: Value) -> (r: Result<NestedList, EvalError>)
        ensures
            r == nested_of_spec(val@),
        decreases val,
    {
        proof {
            reveal_with_fuel(node_of, 5);
        }
        match val {
            Value::Apply(f0, arg0) => match *f0 {
                Value::Apply(f1, arg1) => match *f1 {
                    Value::BuiltIn(BuiltIn::Cons) => match self.eval_nested_list(*arg1) {
                        Ok(a) => match self.eval_nested_list(*arg0) {
                            Ok(bl) => Ok(NestedList::Cons(Box::new(a), Box::new(bl))),
                            Err(e) => Err(e),
                        },
                        Err(e) => Err(e),
                    },
                    _ => Err(EvalError::MalformedList),
                },
                _ => Err(EvalError::MalformedList),
            },
            Value::BuiltIn(BuiltIn::Nil) => Ok(NestedList::Nil),
            Value::Number(n) => Ok(NestedList::Number(n)),
            _ => Err(EvalError::MalformedList),
        }
    }

    /// Adds every coordinate pair of `l` to `pic`, in list order.
    fn draw_onto(&self, pic: &mut Picture, l: NestedList) -> (r: Result<(), EvalError>)
        ensures
            match draw_list_spec(old(pic)@, l) {
                Ok(pv) => r == Ok::<(), EvalError>(()) && final(pic)@ == pv,
                Err(e) => r == Err::<(), EvalError>(e),
            },
        decreases l,
    {
        match l {
            NestedList::Nil => Ok(()),
            NestedList::Number(_) => Err(EvalError::MalformedList),
            NestedList::Cons(head, tail) => match *head {
                NestedList::Cons(x, y) => match (*x, *y) {
                    (NestedList::Number(xv), NestedList::Number(yv)) => {
                        if 0 <= xv && xv < u32::MAX as i64 && 0 <= yv && yv < u32::MAX as i64 {
                            pic.add(xv as u32, yv as u32);
                            proof {
                                assert(pic@ =~= picture_add_spec(old(pic)@, xv as u32, yv as u32));
                            }
                            self.draw_onto(pic, *tail)
                        } else {
                            Err(EvalError::MalformedList)
                        }
                    },
                    _ => Err(EvalError::MalformedList),
                },
                _ => Err(EvalError::MalformedList),
            },
        }
    }

    /// Builds the picture a value draws: the value must be a list of
    /// two-coordinate pairs of numbers, read syntactically.
    pub fn eval_draw(&self, val: Value) -> (r: Result<Picture, EvalError>)
        ensures
            match draw_spec(val@) {
                Ok(pv) => r matches Ok(p) && p@ == pv,
                Err(e) => r == Err::<Picture, EvalError>(e),
            },
    {
        match self.eval_nested_list(val) {
            Ok(l) => {
                let mut pic = Picture::new();
                proof {
                    assert(pic@ =~= empty_picture_spec());
                }
                match self.draw_onto(&mut pic, l) {
                    Ok(()) => Ok(pic),
                    Err(e) => Err(e),
                }
            },
            Err(e) => Err(e),
        }
    }

    /// Draws each element of a cons-list of point-lists, keeping the list
    /// shape and order.
    pub fn eval_multidraw(&self, val: Value) -> (r: Result<Value, EvalError>)
        ensures
            res_node(r) == multidraw_spec(val@),
        decreases val,
    {
        proof {
            reveal_with_fuel(node_of, 5);
        }
        match val {
            Value::Apply(f0, arg0) => match *f0 {
                Value::Apply(f1, arg1) => match *f1 {
                    Value::BuiltIn(BuiltIn::Cons) => match self.eval_draw(*arg1) {
                        Ok(p) => match self.eval_multidraw(*arg0) {
                            Ok(rest) => Ok(
                                Value::Apply(
                                    Box::new(
                                        Value::Apply(
                                            Box::new(Value::BuiltIn(BuiltIn::Cons)),
                                            Box::new(Value::Picture(p)),
                                        ),
                                    ),
                                    Box::new(rest),
                                ),
                            ),
                            Err(e) => Err(e),
                        },
                        Err(e) => Err(e),
                    },
                    _ => Err(EvalError::MalformedList),
                },
                _ => Err(EvalError::MalformedList),
            },
            Value::BuiltIn(BuiltIn::Nil) => Ok(Value::BuiltIn(BuiltIn::Nil)),
            _ => Err(EvalError::MalformedList),
        }
    }
}

/// The leaf value a terminal token denotes.
fn token_leaf(t: Token) -> (r: Value)
    ensures
        r@ == leaf_spec(t),
{
    match t {
        Token::Var(v) => Value::Var(v),
        Token::Number(n) => Value::Number(n),
        Token::True => Value::BuiltIn(BuiltIn::True),
        Token::False => Value::BuiltIn(BuiltIn::False),
        Token::Nil => Value::BuiltIn(BuiltIn::Nil),
        Token::Inc => Value::BuiltIn(BuiltIn::Inc),
        Token::Dec => Value::BuiltIn(BuiltIn::Dec),
        Token::Add => Value::BuiltIn(BuiltIn::Add),
        Token::Mul => Value::BuiltIn(BuiltIn::Mul),
        Token::Div => Value::BuiltIn(BuiltIn::Div),
        Token::Eq => Value::BuiltIn(BuiltIn::Eq),
        Token::Lt => Value::BuiltIn(BuiltIn::Lt),
        Token::Mod => Value::BuiltIn(BuiltIn::Mod),
        Token::Dem => Value::BuiltIn(BuiltIn::Dem),
        Token::Send => Value::BuiltIn(BuiltIn::Send),
        Token::Neg => Value::BuiltIn(BuiltIn::Neg),
        Token::S => Value::BuiltIn(BuiltIn::S),
        Token::C => Value::BuiltIn(BuiltIn::C),
        Token::B => Value::BuiltIn(BuiltIn::B),
        Token::Pwr2 => Value::BuiltIn(BuiltIn::Pwr2),
        Token::I => Value::BuiltIn(BuiltIn::I),
        Token::Cons => Value::BuiltIn(BuiltIn::Cons),
        Token::Head => Value::BuiltIn(BuiltIn::Head),
        Token::Tail => Value::BuiltIn(BuiltIn::Tail),
        Token::IsNil => Value::BuiltIn(BuiltIn::IsNil),
        Token::Draw => Value::BuiltIn(BuiltIn::Draw),
        Token::Checkerboard => Value::BuiltIn(BuiltIn::Checkerboard),
        Token::MultiDraw => Value::BuiltIn(BuiltIn::MultiDraw),
        Token::ModList => Value::BuiltIn(BuiltIn::ModList),
        Token::Send2 => Value::BuiltIn(BuiltIn::Send2),
        Token::If0 => Value::BuiltIn(BuiltIn::If0),
        Token::Interact => Value::BuiltIn(BuiltIn::Interact),
        Token::StatelessDraw => Value::BuiltIn(BuiltIn::StatelessDraw),
        Token::StatefulDraw => Value::BuiltIn(BuiltIn::StatefulDraw),
        Token::Galaxy => Value::BuiltIn(BuiltIn::Galaxy),
        Token::Ap => Value::BuiltIn(BuiltIn::I),  // never consulted: `Ap` is handled by the stack rule
    }
}

} // verus!
