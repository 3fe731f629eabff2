//! Expressions, identifiers and the trackability classifier.
use vstd::prelude::*;

verus! {

/// An interned symbol. The symbol table reserves [`UNDEFINED_ATOM`] for the
/// word `undefined`.
#[derive(Clone, Copy, Debug, PartialEq, Eq, Structural)]
pub struct Atom(pub u32);

/// The atom of the word `undefined`.
pub const UNDEFINED_ATOM: u32 = 0;

/// Longest string literal, in UTF-8 units, that the analysis tracks.
pub const MAX_TRACKED_STR_LEN: usize = 32;

/// A binding: its name and the syntax context it was declared in.
#[derive(Clone, Copy, Debug, PartialEq, Eq, Structural)]
pub struct Id {
    pub sym: Atom,
    pub ctxt: u32,
}

/// A literal. Numbers are kept as the bits of their value (every NaN as one
/// canonical pattern), string and bigint literals as the atom of their text.
#[derive(Clone, Copy, Debug, PartialEq, Eq, Structural)]
pub enum Lit {
    Num(u64),
    Bool(bool),
    Null,
    Str { value: Atom, len: usize },
    BigInt(Atom),
    /// Any other literal (a regular expression, JSX text), by handle.
    Other(u64),
}

#[derive(Clone, Copy, Debug, PartialEq, Eq, Structural)]
pub enum UnaryOp {
    Not,
    Minus,
    /// Any other unary operator.
    Other,
}

/// The operand of a unary expression: a literal, or anything else by handle.
#[derive(Clone, Copy, Debug, PartialEq, Eq, Structural)]
pub enum Operand {
    Lit(Lit),
    Other(u64),
}

/// An expression as far as the analysis looks into it.
#[derive(Clone, Copy, Debug, PartialEq, Eq, Structural)]
pub enum Expr {
    Lit(Lit),
    Ident(Id),
    Unary(UnaryOp, Operand),
    /// Any other expression, by handle.
    Other(u64),
}

/// The identifier `undefined`, as synthesised for an omitted argument.
pub open spec fn undefined_expr() -> Expr {
    Expr::Ident(Id { sym: Atom(UNDEFINED_ATOM), ctxt: 0 })
}

/// Whether a value is side-effect free, small, and comparable across call
/// sites.
pub open spec fn trackable(e: Expr) -> bool {
    match e {
        Expr::Lit(Lit::Str { len, .. }) => len <= MAX_TRACKED_STR_LEN,
        Expr::Lit(Lit::Other(_)) => false,
        Expr::Lit(_) => true,
        Expr::Ident(id) => id.sym == Atom(UNDEFINED_ATOM),
        Expr::Unary(UnaryOp::Not, Operand::Lit(_)) => true,
        Expr::Unary(UnaryOp::Minus, Operand::Lit(Lit::Num(_))) => true,
        _ => false,
    }
}

/// The synthesised `undefined` for an omitted argument.
pub fn undefined() -> (r: Expr)
    ensures
        r == undefined_expr(),
{
    Expr::Ident(Id { sym: Atom(UNDEFINED_ATOM), ctxt: 0 })
}

/// Classifies an expression: numeric, boolean and null literals, string
/// literals of at most [`MAX_TRACKED_STR_LEN`] units, `undefined`, the
/// negation `!` of a literal and `-` of a numeric literal.
pub fn is_trackable_value(e: &Expr) -> (r: bool)
    ensures
        r == trackable(*e),
{
    match e {
        Expr::Lit(Lit::Str { len, .. }) => *len <= MAX_TRACKED_STR_LEN,
        Expr::Lit(Lit::Other(_)) => false,
        Expr::Lit(_) => true,
        Expr::Ident(id) => id.sym.0 == UNDEFINED_ATOM,
        Expr::Unary(UnaryOp::Not, Operand::Lit(_)) => true,
        Expr::Unary(UnaryOp::Minus, Operand::Lit(Lit::Num(_))) => true,
        _ => false,
    }
}

/// The safety check run again before a logged value is inlined. It is the
/// classifier itself, so that what is logged and what is inlined cannot
/// drift apart.
pub fn is_safe_to_inline_value(e: &Expr) -> (r: bool)
    ensures
        r == trackable(*e),
{
    is_trackable_value(e)
}

} // verus!
