//! The expression tree: operators and nodes.
//!
//! A numeric leaf stores the IEEE 754 bit pattern of its double-precision
//! value, so that the tree itself stays within what the verifier can
//! reason about; the floating-point operations themselves are performed
//! by the caller, one answer at a time, as the parser and the evaluator
//! ask for them.

use vstd::prelude::*;

use crate::parser::{parse, spec_parse, ParseError, ParseOutcome, ParseStop};
use vstd::string::StringSliceAdditionalSpecFns;

verus! {

/// The closed set of operator tags, used both for unary signs and for
/// binary expressions.
#[derive(Debug, Copy, Clone, PartialEq, Eq)]
pub enum Operator {
    Plus,
    Minus,
    Multiplication,
    Division,
}

/// One node of the expression tree.
///
/// `Number` is a leaf holding the bit pattern of a double-precision value
/// (a literal or a resolved constant). `UnaryExpr` carries a leading sign;
/// `BinaryExpr` combines two sub-expressions. The tree is immutable once
/// built and every node owns its children.
#[derive(Debug, PartialEq)]
pub enum Node {
    Number(u64),
    UnaryExpr { op: Operator, child: Box<Node> },
    BinaryExpr { op: Operator, lhs: Box<Node>, rhs: Box<Node> },
}

/// The source form of an operator.
pub open spec fn spec_op_text(op: Operator) -> Seq<char> {
    match op {
        Operator::Plus => "+"@,
        Operator::Minus => "-"@,
        Operator::Multiplication => "*"@,
        Operator::Division => "/"@,
    }
}

impl Operator {
    /// Renders the operator as it is written in a source text.
    pub fn to_text(&self) -> (r: String)
        ensures
            r@ == spec_op_text(*self),
    {
        match self {
            Operator::Plus => "+".to_owned(),
            Operator::Minus => "-".to_owned(),
            Operator::Multiplication => "*".to_owned(),
            Operator::Division => "/".to_owned(),
        }
    }
}

/// The rendering of a tree against `nums`, the texts of its numeric
/// leaves in leaf order: a leaf renders as the next text, a unary node as
/// the sign glued to its child, a binary node as its sides around the
/// spaced operator. When `nums` runs out, the bit pattern of the next
/// leaf is reported instead.
pub open spec fn spec_node_text(n: Node, nums: Seq<Seq<char>>, j: int) -> Result<
    (Seq<char>, int),
    u64,
>
    decreases n,
{
    match n {
        Node::Number(b) => {
            if 0 <= j < nums.len() {
                Ok((nums[j], j + 1))
            } else {
                Err(b)
            }
        },
        Node::UnaryExpr { op, child } => {
            match spec_node_text(*child, nums, j) {
                Ok((t, j1)) => Ok((spec_op_text(op) + t, j1)),
                Err(b) => Err(b),
            }
        },
        Node::BinaryExpr { op, lhs, rhs } => {
            match spec_node_text(*lhs, nums, j) {
                Ok((tl, j1)) => {
                    match spec_node_text(*rhs, nums, j1) {
                        Ok((tr, j2)) => Ok((tl + " "@ + spec_op_text(op) + " "@ + tr, j2)),
                        Err(b) => Err(b),
                    }
                },
                Err(b) => Err(b),
            }
        },
    }
}

impl Node {
    /// Renders the tree, taking the texts of its numeric leaves, in leaf
    /// order, from `nums`. `Err` carries the bit pattern of the first
    /// leaf whose text is missing: append its rendering to `nums` and
    /// call again.
    pub fn to_text(&self, nums: &Vec<String>) -> (r: Result<String, u64>)
        ensures
            match r {
                Ok(text) => spec_node_text(*self, nums.deep_view(), 0) matches Ok(p) && text@
                    == p.0,
                Err(b) => spec_node_text(*self, nums.deep_view(), 0) == Err::<(Seq<char>, int), _>(
                    b,
                ),
            },
    {
        match self.to_text_at(nums, 0) {
            Ok((text, _)) => Ok(text),
            Err(b) => Err(b),
        }
    }

    fn to_text_at(&self, nums: &Vec<String>, j: usize) -> (r: Result<(String, usize), u64>)
        requires
            j <= nums@.len(),
        ensures
            match r {
                Ok(p) => spec_node_text(*self, nums.deep_view(), j as int) == Ok::<_, u64>(
                    (p.0@, p.1 as int),
                ) && j <= p.1 <= nums@.len(),
                Err(b) => spec_node_text(*self, nums.deep_view(), j as int) == Err::<
                    (Seq<char>, int),
                    _,
                >(b),
            },
        decreases *self,
    {
        match self {
            Node::Number(b) => {
                if j < nums.len() {
                    let text = nums[j].clone();
                    proof {
                        assert(nums.deep_view()[j as int] == nums@[j as int]@);
                    }
                    Ok((text, j + 1))
                } else {
                    Err(*b)
                }
            },
            Node::UnaryExpr { op, child } => {
                match child.to_text_at(nums, j) {
                    Ok((t, j1)) => {
                        let mut out = op.to_text();
                        out.append(t.as_str());
                        Ok((out, j1))
                    },
                    Err(b) => Err(b),
                }
            },
            Node::BinaryExpr { op, lhs, rhs } => {
                match lhs.to_text_at(nums, j) {
                    Ok((tl, j1)) => {
                        match rhs.to_text_at(nums, j1) {
                            Ok((tr, j2)) => {
                                let mut out = tl;
                                out.append(" ");
                                out.append(op.to_text().as_str());
                                out.append(" ");
                                out.append(tr.as_str());
                                Ok((out, j2))
                            },
                            Err(b) => Err(b),
                        }
                    },
                    Err(b) => Err(b),
                }
            },
        }
    }
}

/// A compilation from source that may stop for want of a literal's value:
/// either the back end's output, or the text of the next numeric literal,
/// whose double-precision bit pattern the caller must append to `lits`
/// before compiling again.
#[derive(Debug, PartialEq)]
pub enum Compiled<T> {
    Ready(T),
    NeedNumber(Vec<u8>),
}

/// A back end that consumes a parsed program.
pub trait Compile {
    type Output;

    /// What [`Compile::from_ast`] promises of its output, given the
    /// program and the answer tape.
    spec fn from_ast_post(ast: Seq<Node>, tape: Seq<u64>, out: Self::Output) -> bool;

    fn from_ast(ast: Vec<Node>, tape: &Vec<u64>) -> (out: Self::Output)
        ensures
            Self::from_ast_post(ast@, tape@, out),
    ;

    /// Parses the source against the literal table and hands the program
    /// to the back end, with `tape` as the back end's answer tape.
    fn from_source(source: &str, lits: &Vec<u64>, tape: &Vec<u64>) -> (r: Result<
        Compiled<Self::Output>,
        ParseError,
    >)
        ensures
            ({
                let sp = spec_parse(source.spec_bytes(), lits@);
                match r {
                    Ok(Compiled::Ready(out)) => sp matches Ok(ns) && Self::from_ast_post(
                        ns,
                        tape@,
                        out,
                    ),
                    Ok(Compiled::NeedNumber(t)) => sp == Err::<Seq<Node>, _>(
                        ParseStop::NeedNumber(t@),
                    ),
                    Err(_) => sp == Err::<Seq<Node>, _>(ParseStop::Malformed),
                }
            }),
    {
        match parse(source, lits) {
            Ok(ParseOutcome::Ast(ns)) => Ok(Compiled::Ready(Self::from_ast(ns, tape))),
            Ok(ParseOutcome::NeedNumber(t)) => Ok(Compiled::NeedNumber(t)),
            Err(e) => Err(e),
        }
    }
}

} // verus!
