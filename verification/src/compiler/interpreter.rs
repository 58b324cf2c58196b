//! The evaluator: reduces a program (a sequence of expression trees) to a
//! single double-precision value, carried as its IEEE 754 bit pattern.
//!
//! The verifier does not reason about floating-point arithmetic, so the
//! evaluator never performs it. Whatever it can decide on the bit patterns
//! alone it does itself: a unary sign flips the sign bit, the
//! division-by-zero test recognises the two zero patterns, and the syntax
//! errors are detected on the tree. For each remaining binary operation it
//! hands the operand patterns back to the caller as an [`Outcome::NeedOp`]
//! request; the caller performs the IEEE 754 operation, appends the result
//! to the answer tape, and calls again. Evaluation is thus a deterministic
//! function of the tree and the tape.

use vstd::prelude::*;

use crate::ast::{Node, Operator};

verus! {

/// The sign bit of a double-precision pattern; as a whole pattern, this
/// is the IEEE 754 negative zero.
pub const SIGN_BIT: u64 = 0x8000_0000_0000_0000;

/// An evaluation failure.
#[derive(Debug, Clone, Copy, PartialEq, Eq)]
pub enum EvalError {
    /// A multiplication sign in unary position: there is no left operand.
    MultiplicationSyntax,
    /// A division sign in unary position: there is no left operand.
    DivisionSyntax,
    /// A division whose right operand evaluated to zero.
    DivisionByZero,
}

/// What one round of evaluation produced.
#[derive(Debug, Clone, PartialEq)]
pub enum Outcome {
    /// The program's value, as an IEEE 754 bit pattern.
    Value(u64),
    /// Evaluation failed; later expressions were not evaluated.
    Fail(EvalError),
    /// The next answer owed on the tape: the IEEE 754 result of applying
    /// the operator to the two operand bit patterns. Append it to the tape
    /// and evaluate again.
    NeedOp(Operator, u64, u64),
}

/// Whether `b` is the bit pattern of an IEEE 754 zero (positive or
/// negative). These are exactly the values that compare equal to zero, so
/// this is the divisor test for `DivisionByZero`.
pub open spec fn is_zero_bits(b: u64) -> bool {
    b == 0 || b == SIGN_BIT
}

/// The bit pattern with the sign bit reversed: IEEE 754 negation.
pub open spec fn spec_flip_sign(b: u64) -> u64 {
    if b >= SIGN_BIT {
        (b - SIGN_BIT) as u64
    } else {
        (b + SIGN_BIT) as u64
    }
}

/// Reverses the sign bit of a double-precision bit pattern.
pub fn flip_sign(b: u64) -> (r: u64)
    ensures
        r == spec_flip_sign(b),
{
    if b >= SIGN_BIT {
        b - SIGN_BIT
    } else {
        b + SIGN_BIT
    }
}

/// Evaluation of one tree against an answer tape.
///
/// `k` is the index of the first unread tape entry. The result pairs the
/// outcome with the index after the run. Children are evaluated before
/// their parent's operator is examined, left side before right, so errors
/// surface in evaluation order and the tape is read in operation order.
pub open spec fn spec_eval(n: Node, tape: Seq<u64>, k: int) -> (Outcome, int)
    decreases n,
{
    match n {
        Node::Number(b) => (Outcome::Value(b), k),
        Node::UnaryExpr { op, child } => {
            let (o, k1) = spec_eval(*child, tape, k);
            match o {
                Outcome::Value(v) => match op {
                    Operator::Plus => (Outcome::Value(v), k1),
                    Operator::Minus => (Outcome::Value(spec_flip_sign(v)), k1),
                    Operator::Multiplication => (Outcome::Fail(EvalError::MultiplicationSyntax), k1),
                    Operator::Division => (Outcome::Fail(EvalError::DivisionSyntax), k1),
                },
                _ => (o, k1),
            }
        },
        Node::BinaryExpr { op, lhs, rhs } => {
            let (ol, k1) = spec_eval(*lhs, tape, k);
            match ol {
                Outcome::Value(a) => {
                    let (orr, k2) = spec_eval(*rhs, tape, k1);
                    match orr {
                        Outcome::Value(b) => {
                            if op == Operator::Division && is_zero_bits(b) {
                                (Outcome::Fail(EvalError::DivisionByZero), k2)
                            } else if 0 <= k2 < tape.len() {
                                (Outcome::Value(tape[k2]), k2 + 1)
                            } else {
                                (Outcome::NeedOp(op, a, b), k2)
                            }
                        },
                        _ => (orr, k2),
                    }
                },
                _ => (ol, k1),
            }
        },
    }
}

/// The tape index never moves backwards, and stays within the tape.
pub proof fn lemma_eval_index(n: Node, tape: Seq<u64>, k: int)
    requires
        0 <= k <= tape.len(),
    ensures
        k <= spec_eval(n, tape, k).1 <= tape.len(),
    decreases n,
{
    match n {
        Node::Number(_) => {},
        Node::UnaryExpr { op, child } => {
            lemma_eval_index(*child, tape, k);
        },
        Node::BinaryExpr { op, lhs, rhs } => {
            lemma_eval_index(*lhs, tape, k);
            let (ol, k1) = spec_eval(*lhs, tape, k);
            if ol is Value {
                lemma_eval_index(*rhs, tape, k1);
            }
        },
    }
}

/// Evaluation of a whole program: the values of the top-level trees are
/// summed left to right, starting from positive zero, exactly as written
/// in the source. Each addition is itself an IEEE 754 operation and so is
/// read from the tape; evaluation stops at the first failure.
pub open spec fn spec_eval_program(nodes: Seq<Node>, tape: Seq<u64>, k: int, acc: u64) -> (Outcome, int)
    decreases nodes.len(),
{
    if nodes.len() == 0 {
        (Outcome::Value(acc), k)
    } else {
        let (o, k1) = spec_eval(nodes[0], tape, k);
        match o {
            Outcome::Value(v) => {
                if 0 <= k1 < tape.len() {
                    spec_eval_program(nodes.drop_first(), tape, k1 + 1, tape[k1])
                } else {
                    (Outcome::NeedOp(Operator::Plus, acc, v), k1)
                }
            },
            _ => (o, k1),
        }
    }
}

/// Law: a literal's value leaves evaluation unchanged. The one-leaf
/// program asks the caller for the single opening addition `+0` plus the
/// leaf's value, and returns the caller's answer verbatim.
pub proof fn lemma_literal_eval(v: u64, tape: Seq<u64>)
    ensures
        tape.len() == 0 ==> spec_eval_program(seq![Node::Number(v)], tape, 0, 0u64).0
            == Outcome::NeedOp(Operator::Plus, 0u64, v),
        tape.len() > 0 ==> spec_eval_program(seq![Node::Number(v)], tape, 0, 0u64).0
            == Outcome::Value(tape[0]),
{
    assert(seq![Node::Number(v)].drop_first() =~= Seq::<Node>::empty());
    if tape.len() > 0 {
        assert(spec_eval_program(Seq::<Node>::empty(), tape, 1, tape[0]) == (
            Outcome::Value(tape[0]),
            1int,
        ));
    }
}

/// Law: evaluation has no hidden state. The outcome of [`Eval::eval`] is
/// a function of the tree and the tape alone, so any two calls on the
/// same tree and tape — through any two evaluators — return equal
/// outcomes.
pub proof fn lemma_eval_repeatable(
    e1: &Eval,
    e2: &Eval,
    node: &Node,
    tape: &Vec<u64>,
    r1: Outcome,
    r2: Outcome,
)
    requires
        call_ensures(Eval::eval, (e1, node, tape), r1),
        call_ensures(Eval::eval, (e2, node, tape), r2),
    ensures
        r1 == r2,
{
}

/// The back end that reduces a program to a value by direct evaluation.
pub struct Interpreter;

impl crate::ast::Compile for Interpreter {
    type Output = Outcome;

    open spec fn from_ast_post(ast: Seq<Node>, tape: Seq<u64>, out: Outcome) -> bool {
        out == spec_eval_program(ast, tape, 0, 0u64).0
    }

    /// Evaluates the trees in order, summing their values left to right
    /// from positive zero against the answer tape.
    fn from_ast(ast: Vec<Node>, tape: &Vec<u64>) -> (out: Outcome) {
        let evaluator = Eval::new();
        let mut acc: u64 = 0;
        let mut k: usize = 0;
        let mut idx: usize = 0;
        proof {
            assert(ast@.skip(0) =~= ast@);
        }
        loop
            invariant
                idx <= ast@.len(),
                k <= tape@.len(),
                spec_eval_program(ast@, tape@, 0, 0u64) == spec_eval_program(
                    ast@.skip(idx as int),
                    tape@,
                    k as int,
                    acc,
                ),
            decreases ast@.len() - idx,
        {
            if idx == ast.len() {
                proof {
                    assert(ast@.skip(idx as int) =~= Seq::<Node>::empty());
                }
                return Outcome::Value(acc);
            }
            let (o, k1) = evaluator.eval_at(&ast[idx], tape, k);
            proof {
                lemma_eval_index(ast@[idx as int], tape@, k as int);
                assert(ast@.skip(idx as int)[0] == ast@[idx as int]);
                assert(ast@.skip(idx as int).drop_first() =~= ast@.skip(idx as int + 1));
            }
            match o {
                Outcome::Value(v) => {
                    if k1 < tape.len() {
                        acc = tape[k1];
                        k = k1 + 1;
                        idx = idx + 1;
                    } else {
                        return Outcome::NeedOp(Operator::Plus, acc, v);
                    }
                },
                _ => {
                    return o;
                },
            }
        }
    }
}

/// The recursive tree evaluator.
pub struct Eval;

impl Eval {
    pub fn new() -> Self {
        Self
    }

    /// Evaluates one tree against the answer tape.
    pub fn eval(&self, node: &Node, tape: &Vec<u64>) -> (r: Outcome)
        ensures
            r == spec_eval(*node, tape@, 0).0,
    {
        self.eval_at(node, tape, 0).0
    }

    /// Evaluates `node` with `k` tape entries already consumed.
    fn eval_at(&self, node: &Node, tape: &Vec<u64>, k: usize) -> (r: (Outcome, usize))
        requires
            k <= tape@.len(),
        ensures
            (r.0, r.1 as int) == spec_eval(*node, tape@, k as int),
        decreases *node,
    {
        match node {
            Node::Number(b) => (Outcome::Value(*b), k),
            Node::UnaryExpr { op, child } => {
                let (o, k1) = self.eval_at(&*child, tape, k);
                proof {
                    lemma_eval_index(**child, tape@, k as int);
                }
                match o {
                    Outcome::Value(v) => match op {
                        Operator::Plus => (Outcome::Value(v), k1),
                        Operator::Minus => (Outcome::Value(flip_sign(v)), k1),
                        Operator::Multiplication => (
                            Outcome::Fail(EvalError::MultiplicationSyntax),
                            k1,
                        ),
                        Operator::Division => (Outcome::Fail(EvalError::DivisionSyntax), k1),
                    },
                    _ => (o, k1),
                }
            },
            Node::BinaryExpr { op, lhs, rhs } => {
                let (ol, k1) = self.eval_at(&*lhs, tape, k);
                proof {
                    lemma_eval_index(**lhs, tape@, k as int);
                }
                match ol {
                    Outcome::Value(a) => {
                        let (orr, k2) = self.eval_at(&*rhs, tape, k1);
                        proof {
                            lemma_eval_index(**rhs, tape@, k1 as int);
                        }
                        match orr {
                            Outcome::Value(b) => {
                                let is_div = matches!(op, Operator::Division);
                                if is_div && (b == 0 || b == SIGN_BIT) {
                                    (Outcome::Fail(EvalError::DivisionByZero), k2)
                                } else if k2 < tape.len() {
                                    (Outcome::Value(tape[k2]), k2 + 1)
                                } else {
                                    (Outcome::NeedOp(*op, a, b), k2)
                                }
                            },
                            _ => (orr, k2),
                        }
                    },
                    _ => (ol, k1),
                }
            },
        }
    }
}

} // verus!
