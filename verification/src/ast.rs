//! The sequence tree that the translator reads.
//!
//! The tree is produced elsewhere, by whatever decodes the device
//! description, and is only read here.
use vstd::prelude::*;

verus! {

/// Radix in which a numeric literal was written, and is written again.
#[derive(Clone, Copy, Debug, PartialEq, Eq, Structural)]
pub enum NumStyle {
    Dec,
    Hex,
}

/// A numeric literal: its value and the radix it is shown in.
#[derive(Clone, Copy, Debug, PartialEq, Eq, Structural)]
pub struct Num(pub u64, pub NumStyle);

/// Unary operators.
#[derive(Clone, Copy, Debug, PartialEq, Eq, Structural)]
pub enum UnOp {
    /// Logical negation.
    Not,
    /// Bitwise complement.
    BitNot,
    /// Unary plus.
    Pos,
    /// Unary minus.
    Neg,
}

/// Binary operators.
#[derive(Clone, Copy, Debug, PartialEq, Eq, Structural)]
pub enum BinOp {
    Add,
    Sub,
    Mul,
    Div,
    Rem,
    BitXor,
    BitAnd,
    BitOr,
    Shr,
    Shl,
    Lt,
    Le,
    Ge,
    Gt,
    Eq,
    Ne,
    And,
    Or,
}

/// An argument of a call: an expression, or a string such as the name of a
/// sequence or a diagnostic text.
#[derive(Debug, PartialEq, Eq)]
pub enum Arg {
    Expr(Expr),
    String(String),
}

/// An expression.
#[derive(Debug, PartialEq, Eq)]
pub enum Expr {
    /// A numeric literal.
    Num(Num),
    /// A variable, by name.
    Var(String),
    /// A call of the function of that name.
    Call(String, Vec<Arg>),
    /// A unary operator and its operand.
    Unary(UnOp, Box<Expr>),
    /// A binary operator and its left and right operand.
    Binary(BinOp, Box<(Expr, Expr)>),
    /// A conditional: the test, the value if it holds, the value if not.
    Cond(Box<(Expr, Expr, Expr)>),
}

/// A statement.
#[derive(Debug, PartialEq, Eq)]
pub enum Stmt {
    /// Declares a local variable and gives it a value.
    Declare(String, Expr),
    /// Assigns to a variable.
    Assign(String, Expr),
    /// Evaluates an expression and drops its value.
    Expr(Expr),
}

/// A control node: an optional guard, an optional loop with an optional
/// timeout in microseconds, around nested nodes.
#[derive(Debug, PartialEq, Eq)]
pub struct Control {
    pub if_cond: Option<Expr>,
    pub info: Option<String>,
    pub while_cond: Option<Expr>,
    pub timeout: Option<u64>,
    pub body: Vec<Struct>,
}

/// A block of statements, atomic or not.
#[derive(Debug, PartialEq, Eq)]
pub struct Block {
    pub info: Option<String>,
    pub atomic: bool,
    pub body: Vec<Stmt>,
}

/// A node of a sequence body.
#[derive(Debug, PartialEq, Eq)]
pub enum Struct {
    Control(Control),
    Block(Block),
}

/// A named procedure.
#[derive(Debug, PartialEq, Eq)]
pub struct Sequence {
    pub name: String,
    pub body: Vec<Struct>,
}

/// The sequences of one device, each under the name it is called by, in the
/// order in which they are emitted.
#[derive(Debug, PartialEq, Eq)]
pub struct Sequences(pub Vec<(String, Sequence)>);

} // verus!
