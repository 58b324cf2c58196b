//! The grammar parser and AST builder.
//!
//! The grammar, over the source bytes, is:
//!
//! ```text
//! Program    := ws (Expr ws)* end-of-input
//! Expr       := UnaryExpr | BinaryExpr
//! UnaryExpr  := Sign ws Term
//! BinaryExpr := Term (ws Op ws Term | Term)*      (juxtaposition, with no
//!                                                  blank in between, is an
//!                                                  implicit multiplication)
//! Term       := Number | Var | '(' ws Expr ws ')'
//! Number     := ['-'] digits ['.' digits]         ('-' only where a digit
//!                                                  follows at once)
//! Var        := alpha alnum*
//! Sign       := '+' | '-'
//! Op         := '+' | '-' | '*' | '/' | 'x'
//! ```
//!
//! Binary chains fold strictly left-associatively, with no precedence
//! between operators. A `Var` that is exactly `pi` resolves to the
//! constant; any other identifier resolves to zero. The value of a numeric
//! literal is a double-precision conversion the verifier cannot perform,
//! so the caller supplies the literals' bit patterns through the `lits`
//! table: when the table runs out, parsing stops and reports the text of
//! the next literal ([`ParseOutcome::NeedNumber`]); the caller appends its
//! IEEE 754 value and parses again. Everything else about the parse is a
//! deterministic function of the source bytes and that table, stated by
//! [`spec_parse`].
//!
//! The bytes compared against below are ASCII: 9, 10, 13 and 32 are the
//! blanks, 40 `(`, 41 `)`, 42 `*`, 43 `+`, 45 `-`, 46 `.`, 47 `/`,
//! 48 to 57 the digits, 105 `i`, 112 `p`, 120 `x`.

use vstd::prelude::*;

use crate::ast::{Node, Operator};
use vstd::string::{StrSliceExecFns, StringSliceAdditionalSpecFns};

verus! {

/// The IEEE 754 double-precision bit pattern of the constant pi.
pub const PI_BITS: u64 = 0x4009_21FB_5444_2D18;

/// How a parse can stop short of a full program, in the specification:
/// the source does not match the grammar, or a literal's value is owed.
pub enum ParseStop {
    /// The next literal's text; its bit pattern is missing from `lits`.
    NeedNumber(Seq<u8>),
    /// The source does not match the grammar.
    Malformed,
}

/// A successful call of [`parse`] that could not yet return a program.
#[derive(Debug, PartialEq)]
pub enum ParseOutcome {
    /// The program: one tree per top-level expression.
    Ast(Vec<Node>),
    /// The text of the next numeric literal. Append its double-precision
    /// bit pattern to `lits` and parse again.
    NeedNumber(Vec<u8>),
}

/// Where and why the source failed to match the grammar.
#[derive(Debug, Clone, Copy, PartialEq, Eq)]
pub struct ParseError {
    /// Byte position at which matching could not proceed.
    pub pos: usize,
    /// What the grammar expected there.
    pub expected: Expected,
}

/// The token class expected at the failure position.
#[derive(Debug, Clone, Copy, PartialEq, Eq)]
pub enum Expected {
    /// A number, an identifier or a parenthesized expression.
    Term,
    /// A closing parenthesis.
    CloseParen,
}

/// Blank bytes: space, tab, line feed, carriage return.
pub open spec fn is_ws(b: u8) -> bool {
    b == 32 || b == 9 || b == 10 || b == 13
}

/// An ASCII decimal digit.
pub open spec fn is_digit(b: u8) -> bool {
    48 <= b <= 57
}

/// An ASCII letter.
pub open spec fn is_alpha(b: u8) -> bool {
    (65 <= b <= 90) || (97 <= b <= 122)
}

/// An ASCII letter or digit.
pub open spec fn is_alnum(b: u8) -> bool {
    is_alpha(b) || is_digit(b)
}

/// The first position at or after `i` holding no blank byte.
pub open spec fn spec_skip_ws(s: Seq<u8>, i: int) -> int
    decreases s.len() - i,
{
    if 0 <= i < s.len() && is_ws(s[i]) {
        spec_skip_ws(s, i + 1)
    } else {
        i
    }
}

proof fn lemma_skip_ws(s: Seq<u8>, i: int)
    ensures
        i <= spec_skip_ws(s, i),
        i <= s.len() ==> spec_skip_ws(s, i) <= s.len(),
    decreases s.len() - i,
{
    if 0 <= i < s.len() && is_ws(s[i]) {
        lemma_skip_ws(s, i + 1);
    }
}

/// The first position at or after `i` holding no digit.
pub open spec fn spec_scan_digits(s: Seq<u8>, i: int) -> int
    decreases s.len() - i,
{
    if 0 <= i < s.len() && is_digit(s[i]) {
        spec_scan_digits(s, i + 1)
    } else {
        i
    }
}

/// The first position at or after `i` holding no letter or digit.
pub open spec fn spec_scan_alnum(s: Seq<u8>, i: int) -> int
    decreases s.len() - i,
{
    if 0 <= i < s.len() && is_alnum(s[i]) {
        spec_scan_alnum(s, i + 1)
    } else {
        i
    }
}

/// The end of the numeric literal starting at `i`, if one starts there:
/// an optional minus sign, digits, and an optional fraction.
pub open spec fn spec_number_end(s: Seq<u8>, i: int) -> Option<int> {
    let d = if 0 <= i < s.len() && s[i] == 45 {
        i + 1
    } else {
        i
    };
    if 0 <= d < s.len() && is_digit(s[d]) {
        let e = spec_scan_digits(s, d);
        if e + 1 < s.len() && s[e] == 46 && is_digit(s[e + 1]) {
            Some(spec_scan_digits(s, e + 1))
        } else {
            Some(e)
        }
    } else {
        None
    }
}

/// The operator written at `j`, if any. In operator position `x` is
/// always a multiplication sign; an identifier is read there only where
/// no operator matches first.
pub open spec fn spec_op_at(s: Seq<u8>, j: int) -> Option<Operator> {
    if 0 <= j < s.len() {
        if s[j] == 43 {
            Some(Operator::Plus)
        } else if s[j] == 45 {
            Some(Operator::Minus)
        } else if s[j] == 42 || s[j] == 120 {
            Some(Operator::Multiplication)
        } else if s[j] == 47 {
            Some(Operator::Division)
        } else {
            None
        }
    } else {
        None
    }
}

/// Whether a term can open at `i`: a digit, a letter or a parenthesis.
/// (A minus sign in term position is read as part of a numeric literal,
/// but a chain reaches a term only through an operator or by direct
/// juxtaposition, and a minus sign is always taken as an operator there.)
pub open spec fn is_term_start(s: Seq<u8>, i: int) -> bool {
    0 <= i < s.len() && (is_digit(s[i]) || is_alpha(s[i]) || s[i] == 40)
}

/// Whether the numeric-literal rule matches at `i`: a digit, or a minus
/// sign directly followed by a digit.
pub open spec fn is_number_start(s: Seq<u8>, i: int) -> bool {
    0 <= i < s.len() && (is_digit(s[i]) || (s[i] == 45 && i + 1 < s.len() && is_digit(s[i + 1])))
}

/// The term at `i`: a numeric literal, an identifier (`pi` resolves to
/// the constant, anything else to zero), or a parenthesized expression.
/// On success: the node, the position after the term, and the count of
/// literal values read from `lits`.
pub open spec fn spec_term(s: Seq<u8>, lits: Seq<u64>, i: int, k: int) -> Result<
    (Node, int, int),
    ParseStop,
>
    decreases s.len() - i, 0int,
    via spec_term_decreases
{
    if is_number_start(s, i) {
        match spec_number_end(s, i) {
            Some(e) => {
                if 0 <= k < lits.len() {
                    Ok((Node::Number(lits[k]), e, k + 1))
                } else {
                    Err(ParseStop::NeedNumber(s.subrange(i, e)))
                }
            },
            None => Err(ParseStop::Malformed),
        }
    } else if 0 <= i < s.len() && is_alpha(s[i]) {
        let e = spec_scan_alnum(s, i + 1);
        if e - i == 2 && s[i] == 112 && s[i + 1] == 105 {
            Ok((Node::Number(PI_BITS), e, k))
        } else {
            Ok((Node::Number(0u64), e, k))
        }
    } else if 0 <= i < s.len() && s[i] == 40 {
        let j = spec_skip_ws(s, i + 1);
        match spec_expr(s, lits, j, k) {
            Ok((n, i2, k2)) => {
                let j2 = spec_skip_ws(s, i2);
                if 0 <= j2 < s.len() && s[j2] == 41 {
                    Ok((n, j2 + 1, k2))
                } else {
                    Err(ParseStop::Malformed)
                }
            },
            Err(e) => Err(e),
        }
    } else {
        Err(ParseStop::Malformed)
    }
}

#[via_fn]
proof fn spec_term_decreases(s: Seq<u8>, lits: Seq<u64>, i: int, k: int) {
    lemma_skip_ws(s, i + 1);
}

/// The expression at `i`. A leading sign makes a unary expression over
/// the following term; anything else is a term followed by a chain of
/// `(operator, term)` steps folded strictly to the left.
pub open spec fn spec_expr(s: Seq<u8>, lits: Seq<u64>, i: int, k: int) -> Result<
    (Node, int, int),
    ParseStop,
>
    decreases s.len() - i, 2int,
    via spec_expr_decreases
{
    if 0 <= i < s.len() && (s[i] == 43 || s[i] == 45) {
        let op = if s[i] == 43 {
            Operator::Plus
        } else {
            Operator::Minus
        };
        let j = spec_skip_ws(s, i + 1);
        match spec_term(s, lits, j, k) {
            Ok((c, i2, k2)) => Ok(
                (Node::UnaryExpr { op, child: Box::new(c) }, i2, k2),
            ),
            Err(e) => Err(e),
        }
    } else {
        match spec_term(s, lits, i, k) {
            Ok((t, i2, k2)) => {
                if i <= i2 <= s.len() {
                    spec_chain(s, lits, t, i2, k2)
                } else {
                    Err(ParseStop::Malformed)
                }
            },
            Err(e) => Err(e),
        }
    }
}

#[via_fn]
proof fn spec_expr_decreases(s: Seq<u8>, lits: Seq<u64>, i: int, k: int) {
    lemma_skip_ws(s, i + 1);
}

/// The chain continuing an expression whose tree so far is `lhs` and
/// whose next byte is at `i`: an operator (blanks allowed around it) or a
/// directly juxtaposed term — an implicit multiplication — folds into a
/// new left-hand side; anything else ends the expression.
pub open spec fn spec_chain(s: Seq<u8>, lits: Seq<u64>, lhs: Node, i: int, k: int) -> Result<
    (Node, int, int),
    ParseStop,
>
    decreases s.len() - i, 1int,
    via spec_chain_decreases
{
    let j = spec_skip_ws(s, i);
    match spec_op_at(s, j) {
        Some(op) => {
            let m = spec_skip_ws(s, j + 1);
            match spec_term(s, lits, m, k) {
                Ok((rhs, i3, k3)) => {
                    if i < i3 <= s.len() {
                        spec_chain(
                            s,
                            lits,
                            Node::BinaryExpr { op, lhs: Box::new(lhs), rhs: Box::new(rhs) },
                            i3,
                            k3,
                        )
                    } else {
                        Err(ParseStop::Malformed)
                    }
                },
                Err(e) => Err(e),
            }
        },
        None => {
            if is_term_start(s, i) {
                match spec_term(s, lits, i, k) {
                    Ok((rhs, i3, k3)) => {
                        if i < i3 <= s.len() {
                            spec_chain(
                                s,
                                lits,
                                Node::BinaryExpr {
                                    op: Operator::Multiplication,
                                    lhs: Box::new(lhs),
                                    rhs: Box::new(rhs),
                                },
                                i3,
                                k3,
                            )
                        } else {
                            Err(ParseStop::Malformed)
                        }
                    },
                    Err(e) => Err(e),
                }
            } else {
                Ok((lhs, i, k))
            }
        },
    }
}

#[via_fn]
proof fn spec_chain_decreases(s: Seq<u8>, lits: Seq<u64>, lhs: Node, i: int, k: int) {
    lemma_skip_ws(s, i);
    lemma_skip_ws(s, spec_skip_ws(s, i) + 1);
}

/// The program from position `i` on: blanks, then either the end of the
/// source or an expression and the rest of the program.
pub open spec fn spec_program_from(s: Seq<u8>, lits: Seq<u64>, i: int, k: int) -> Result<
    Seq<Node>,
    ParseStop,
>
    decreases s.len() - i,
{
    let j = spec_skip_ws(s, i);
    if j >= s.len() {
        Ok(Seq::empty())
    } else {
        match spec_expr(s, lits, j, k) {
            Ok((n, i2, k2)) => {
                if i < i2 <= s.len() {
                    match spec_program_from(s, lits, i2, k2) {
                        Ok(rest) => Ok(seq![n] + rest),
                        Err(e) => Err(e),
                    }
                } else {
                    Err(ParseStop::Malformed)
                }
            },
            Err(e) => Err(e),
        }
    }
}

/// What parsing the whole source against the literal table yields: the
/// program, or the first point at which it stops.
pub open spec fn spec_parse(s: Seq<u8>, lits: Seq<u64>) -> Result<Seq<Node>, ParseStop> {
    spec_program_from(s, lits, 0, 0)
}

/// Law: a literal's value reaches the tree unchanged. A source that is
/// exactly one numeric literal (opening with a digit), parsed against a
/// table holding one value, is the one-leaf program carrying that value
/// verbatim.
pub proof fn lemma_literal_parse(s: Seq<u8>, v: u64)
    requires
        0 < s.len(),
        is_digit(s[0]),
        spec_number_end(s, 0) == Some(s.len() as int),
    ensures
        spec_parse(s, seq![v]) == Ok::<_, ParseStop>(seq![Node::Number(v)]),
{
    let lits = seq![v];
    let n = s.len() as int;
    assert(spec_skip_ws(s, 0) == 0);
    assert(spec_term(s, lits, 0, 0) == Ok::<_, ParseStop>((Node::Number(v), n, 1int)));
    assert(spec_skip_ws(s, n) == n);
    assert(spec_op_at(s, n) is None);
    assert(spec_chain(s, lits, Node::Number(v), n, 1) == Ok::<_, ParseStop>(
        (Node::Number(v), n, 1int),
    ));
    assert(spec_expr(s, lits, 0, 0) == Ok::<_, ParseStop>((Node::Number(v), n, 1int)));
    assert(spec_program_from(s, lits, n, 1) == Ok::<_, ParseStop>(Seq::<Node>::empty()));
    assert(seq![Node::Number(v)] + Seq::<Node>::empty() =~= seq![Node::Number(v)]);
}

// ---------------------------------------------------------------------
// Executable parser
// ---------------------------------------------------------------------

/// How the executable parser stops short of a full program.
enum Abort {
    Need(Vec<u8>),
    Fail(ParseError),
}

fn skip_ws(s: &Vec<u8>, i: usize) -> (r: usize)
    requires
        i <= s@.len(),
    ensures
        r as int == spec_skip_ws(s@, i as int),
        i <= r <= s@.len(),
{
    let mut j = i;
    while j < s.len() && (s[j] == 32 || s[j] == 9 || s[j] == 10 || s[j] == 13)
        invariant
            i <= j <= s@.len(),
            spec_skip_ws(s@, i as int) == spec_skip_ws(s@, j as int),
        decreases s@.len() - j,
    {
        j += 1;
    }
    j
}

fn scan_digits(s: &Vec<u8>, i: usize) -> (r: usize)
    requires
        i <= s@.len(),
    ensures
        r as int == spec_scan_digits(s@, i as int),
        i <= r <= s@.len(),
{
    let mut j = i;
    while j < s.len() && 48 <= s[j] && s[j] <= 57
        invariant
            i <= j <= s@.len(),
            spec_scan_digits(s@, i as int) == spec_scan_digits(s@, j as int),
        decreases s@.len() - j,
    {
        j += 1;
    }
    j
}

fn scan_alnum(s: &Vec<u8>, i: usize) -> (r: usize)
    requires
        i <= s@.len(),
    ensures
        r as int == spec_scan_alnum(s@, i as int),
        i <= r <= s@.len(),
{
    let mut j = i;
    while j < s.len() && (48 <= s[j] && s[j] <= 57 || 65 <= s[j] && s[j] <= 90 || 97 <= s[j]
        && s[j] <= 122)
        invariant
            i <= j <= s@.len(),
            spec_scan_alnum(s@, i as int) == spec_scan_alnum(s@, j as int),
        decreases s@.len() - j,
    {
        j += 1;
    }
    j
}

proof fn lemma_scan_digits_lb(s: Seq<u8>, i: int)
    ensures
        i <= spec_scan_digits(s, i),
    decreases s.len() - i,
{
    if 0 <= i < s.len() && is_digit(s[i]) {
        lemma_scan_digits_lb(s, i + 1);
    }
}

/// The end of the numeric literal starting at `i`, if one starts there.
fn number_end(s: &Vec<u8>, i: usize) -> (r: Option<usize>)
    requires
        i <= s@.len(),
    ensures
        match r {
            Some(e) => spec_number_end(s@, i as int) == Some(e as int) && i < e <= s@.len(),
            None => spec_number_end(s@, i as int) is None,
        },
{
    let d = if i < s.len() && s[i] == 45 {
        i + 1
    } else {
        i
    };
    if d < s.len() && 48 <= s[d] && s[d] <= 57 {
        let e = scan_digits(s, d);
        proof {
            assert(spec_scan_digits(s@, d as int) == spec_scan_digits(s@, d as int + 1));
            lemma_scan_digits_lb(s@, d as int + 1);
        }
        if e < s.len() && s[e] == 46 && e + 1 < s.len() && 48 <= s[e + 1] && s[e + 1] <= 57 {
            proof {
                lemma_scan_digits_lb(s@, e as int + 1);
            }
            Some(scan_digits(s, e + 1))
        } else {
            Some(e)
        }
    } else {
        None
    }
}

/// Copies the bytes of `s` from `a` to `b`.
fn copy_range(s: &Vec<u8>, a: usize, b: usize) -> (r: Vec<u8>)
    requires
        a <= b <= s@.len(),
    ensures
        r@ == s@.subrange(a as int, b as int),
{
    let mut v: Vec<u8> = Vec::new();
    let mut idx = a;
    while idx < b
        invariant
            a <= idx <= b <= s@.len(),
            v@ == s@.subrange(a as int, idx as int),
        decreases b - idx,
    {
        v.push(s[idx]);
        idx += 1;
        proof {
            assert(s@.subrange(a as int, idx as int) =~= s@.subrange(a as int, idx as int - 1)
                + seq![s@[idx as int - 1]]);
        }
    }
    v
}

/// The operator written at `j`, if any.
fn parse_op(s: &Vec<u8>, j: usize) -> (r: Option<Operator>)
    requires
        j <= s@.len(),
    ensures
        r == spec_op_at(s@, j as int),
        r is Some ==> j < s@.len(),
{
    if j < s.len() {
        if s[j] == 43 {
            Some(Operator::Plus)
        } else if s[j] == 45 {
            Some(Operator::Minus)
        } else if s[j] == 42 || s[j] == 120 {
            Some(Operator::Multiplication)
        } else if s[j] == 47 {
            Some(Operator::Division)
        } else {
            None
        }
    } else {
        None
    }
}

/// Builds the unary node for a leading sign over `child`.
fn parse_unary_expr(sign: u8, child: Node) -> (r: Node)
    requires
        sign == 43 || sign == 45,
    ensures
        r == (Node::UnaryExpr {
            op: if sign == 43 {
                Operator::Plus
            } else {
                Operator::Minus
            },
            child: Box::new(child),
        }),
{
    Node::UnaryExpr {
        op: if sign == 43 {
            Operator::Plus
        } else {
            Operator::Minus
        },
        child: Box::new(child),
    }
}

/// Folds `lhs` and `rhs` under `op` into a binary node.
fn parse_binary_expr(op: Operator, lhs: Node, rhs: Node) -> (r: Node)
    ensures
        r == (Node::BinaryExpr { op, lhs: Box::new(lhs), rhs: Box::new(rhs) }),
{
    Node::BinaryExpr { op, lhs: Box::new(lhs), rhs: Box::new(rhs) }
}

/// Lowers the term at `i`: a literal, an identifier or a parenthesized
/// expression.
fn build_ast_from_term(s: &Vec<u8>, lits: &Vec<u64>, i: usize, k: usize) -> (r: Result<
    (Node, usize, usize),
    Abort,
>)
    requires
        i <= s@.len(),
        k <= lits@.len(),
    ensures
        match r {
            Ok((n, i2, k2)) => spec_term(s@, lits@, i as int, k as int) == Ok::<_, ParseStop>(
                (n, i2 as int, k2 as int),
            ) && i < i2 <= s@.len() && k <= k2 <= lits@.len(),
            Err(Abort::Need(t)) => spec_term(s@, lits@, i as int, k as int) == Err::<
                (Node, int, int),
                _,
            >(ParseStop::NeedNumber(t@)),
            Err(Abort::Fail(_)) => spec_term(s@, lits@, i as int, k as int) == Err::<
                (Node, int, int),
                _,
            >(ParseStop::Malformed),
        },
    decreases s@.len() - i, 0int,
{
    if i < s.len() && (48 <= s[i] && s[i] <= 57 || (s[i] == 45 && i + 1 < s.len() && 48 <= s[i + 1]
        && s[i + 1] <= 57)) {
        match number_end(s, i) {
            Some(e) => {
                if k < lits.len() {
                    Ok((Node::Number(lits[k]), e, k + 1))
                } else {
                    Err(Abort::Need(copy_range(s, i, e)))
                }
            },
            None => Err(Abort::Fail(ParseError { pos: i, expected: Expected::Term })),
        }
    } else if i < s.len() && (65 <= s[i] && s[i] <= 90 || 97 <= s[i] && s[i] <= 122) {
        let e = scan_alnum(s, i + 1);
        if e - i == 2 && s[i] == 112 && s[i + 1] == 105 {
            Ok((Node::Number(PI_BITS), e, k))
        } else {
            Ok((Node::Number(0u64), e, k))
        }
    } else if i < s.len() && s[i] == 40 {
        let j = skip_ws(s, i + 1);
        match build_ast_from_expr(s, lits, j, k) {
            Ok((n, i2, k2)) => {
                let j2 = skip_ws(s, i2);
                if j2 < s.len() && s[j2] == 41 {
                    Ok((n, j2 + 1, k2))
                } else {
                    Err(Abort::Fail(ParseError { pos: j2, expected: Expected::CloseParen }))
                }
            },
            Err(e) => Err(e),
        }
    } else {
        Err(Abort::Fail(ParseError { pos: i, expected: Expected::Term }))
    }
}

/// Lowers the expression at `i`: a unary expression for a leading sign,
/// else a term extended by its left-associative chain of operator and
/// juxtaposition steps.
fn build_ast_from_expr(s: &Vec<u8>, lits: &Vec<u64>, i: usize, k: usize) -> (r: Result<
    (Node, usize, usize),
    Abort,
>)
    requires
        i <= s@.len(),
        k <= lits@.len(),
    ensures
        match r {
            Ok((n, i2, k2)) => spec_expr(s@, lits@, i as int, k as int) == Ok::<_, ParseStop>(
                (n, i2 as int, k2 as int),
            ) && i < i2 <= s@.len() && k <= k2 <= lits@.len(),
            Err(Abort::Need(t)) => spec_expr(s@, lits@, i as int, k as int) == Err::<
                (Node, int, int),
                _,
            >(ParseStop::NeedNumber(t@)),
            Err(Abort::Fail(_)) => spec_expr(s@, lits@, i as int, k as int) == Err::<
                (Node, int, int),
                _,
            >(ParseStop::Malformed),
        },
    decreases s@.len() - i, 2int,
{
    if i < s.len() && (s[i] == 43 || s[i] == 45) {
        let sign = s[i];
        let j = skip_ws(s, i + 1);
        match build_ast_from_term(s, lits, j, k) {
            Ok((c, i2, k2)) => Ok((parse_unary_expr(sign, c), i2, k2)),
            Err(e) => Err(e),
        }
    } else {
        match build_ast_from_term(s, lits, i, k) {
            Ok((t, i2, k2)) => {
                let ghost target = spec_chain(s@, lits@, t, i2 as int, k2 as int);
                let mut node = t;
                let mut ci = i2;
                let mut ck = k2;
                loop
                    invariant
                        i < ci <= s@.len(),
                        ck <= lits@.len(),
                        spec_chain(s@, lits@, node, ci as int, ck as int) == target,
                        spec_expr(s@, lits@, i as int, k as int) == target,
                        k <= ck,
                    decreases s@.len() - ci,
                {
                    let j = skip_ws(s, ci);
                    match parse_op(s, j) {
                        Some(op) => {
                            proof {
                                vstd::std_specs::vec::axiom_spec_len(s);
                                assert(j < s@.len());
                            }
                            let m = skip_ws(s, j + 1);
                            match build_ast_from_term(s, lits, m, ck) {
                                Ok((rhs, i3, k3)) => {
                                    node = parse_binary_expr(op, node, rhs);
                                    ci = i3;
                                    ck = k3;
                                },
                                Err(e) => {
                                    return Err(e);
                                },
                            }
                        },
                        None => {
                            if ci < s.len() && (48 <= s[ci] && s[ci] <= 57 || 65 <= s[ci] && s[ci]
                                <= 90 || 97 <= s[ci] && s[ci] <= 122 || s[ci] == 40) {
                                match build_ast_from_term(s, lits, ci, ck) {
                                    Ok((rhs, i3, k3)) => {
                                        node = parse_binary_expr(
                                            Operator::Multiplication,
                                            node,
                                            rhs,
                                        );
                                        ci = i3;
                                        ck = k3;
                                    },
                                    Err(e) => {
                                        return Err(e);
                                    },
                                }
                            } else {
                                return Ok((node, ci, ck));
                            }
                        },
                    }
                }
            },
            Err(e) => Err(e),
        }
    }
}

/// Parses the whole source against the literal table `lits`.
///
/// The result is exactly what [`spec_parse`] says of the source bytes and
/// the table: the program's trees in source order, or the text of the
/// first literal whose value is missing from the table, or an error at
/// the first position where the source leaves the grammar.
pub fn parse(source: &str, lits: &Vec<u64>) -> (r: Result<ParseOutcome, ParseError>)
    ensures
        ({
            let sp = spec_parse(source.spec_bytes(), lits@);
            match r {
                Ok(ParseOutcome::Ast(ns)) => sp == Ok::<_, ParseStop>(ns@),
                Ok(ParseOutcome::NeedNumber(t)) => sp == Err::<Seq<Node>, _>(
                    ParseStop::NeedNumber(t@),
                ),
                Err(_) => sp == Err::<Seq<Node>, _>(ParseStop::Malformed),
            }
        }),
{
    let s = source.as_bytes_vec();
    let mut nodes: Vec<Node> = Vec::new();
    let mut i: usize = 0;
    let mut k: usize = 0;
    loop
        invariant
            i <= s@.len(),
            k <= lits@.len(),
            s@ == source.spec_bytes(),
            spec_parse(source.spec_bytes(), lits@) == (match spec_program_from(
                s@,
                lits@,
                i as int,
                k as int,
            ) {
                Ok(rest) => Ok::<_, ParseStop>(nodes@ + rest),
                Err(e) => Err(e),
            }),
        decreases s@.len() - i,
    {
        let j = skip_ws(&s, i);
        if j >= s.len() {
            proof {
                assert(nodes@ + Seq::<Node>::empty() =~= nodes@);
            }
            return Ok(ParseOutcome::Ast(nodes));
        }
        match build_ast_from_expr(&s, lits, j, k) {
            Ok((n, i2, k2)) => {
                proof {
                    assert(spec_program_from(s@, lits@, i as int, k as int) == (
                    match spec_program_from(s@, lits@, i2 as int, k2 as int) {
                        Ok(rest) => Ok::<_, ParseStop>(seq![n] + rest),
                        Err(e) => Err(e),
                    }));
                }
                let ghost nodes0 = nodes@;
                nodes.push(n);
                proof {
                    assert(nodes@ =~= nodes0 + seq![n]);
                    if let Ok(rest) = spec_program_from(s@, lits@, i2 as int, k2 as int) {
                        assert(nodes0 + (seq![n] + rest) =~= nodes@ + rest);
                    }
                }
                i = i2;
                k = k2;
            },
            Err(Abort::Need(t)) => {
                return Ok(ParseOutcome::NeedNumber(t));
            },
            Err(Abort::Fail(e)) => {
                return Err(e);
            },
        }
    }
}

} // verus!
