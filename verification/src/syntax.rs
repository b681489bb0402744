//! Tokens as delivered by the external tokenizer: each named definition
//! arrives as a `Stmt` holding an ordered token sequence. The compiler in
//! `eval` turns such a sequence into an expression graph.

use vstd::prelude::*;

verus! {

/// A symbolic name identifying a stored definition. Names are globally
/// unique within one program and never reused for a different definition.
pub type Var = u64;

/// One token of a definition's body: a literal, a variable reference, a
/// built-in operator name, or the binary-apply marker `Ap`.
#[derive(Debug, Clone, Copy, PartialEq, Eq, Structural)]
pub enum Token {
    Var(Var),
    Number(i64),
    True,
    False,
    Nil,
    Inc,
    Dec,
    Add,
    Mul,
    Div,
    Eq,
    Lt,
    Mod,
    Dem,
    Send,
    Neg,
    S,
    C,
    B,
    Pwr2,
    I,
    Cons,
    Head,
    Tail,
    IsNil,
    Draw,
    Checkerboard,
    MultiDraw,
    ModList,
    Send2,
    If0,
    Interact,
    StatelessDraw,
    StatefulDraw,
    Galaxy,
    Ap,
}

/// One named definition: the name and the ordered token sequence of its body.
#[derive(Debug, PartialEq)]
pub struct Stmt {
    pub var: Var,
    pub code: Vec<Token>,
}

} // verus!
