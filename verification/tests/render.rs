//! Tests of the textual rendering of operators and trees.

use calco::ast::{Node, Operator};

/// Renders a tree, supplying the text of each numeric leaf the library
/// asks for.
fn render(tree: &Node) -> String {
    let mut nums: Vec<String> = Vec::new();
    loop {
        match tree.to_text(&nums) {
            Ok(text) => return text,
            Err(bits) => nums.push(format!("{}", f64::from_bits(bits))),
        }
    }
}

#[test]
fn operators_render_as_written() {
    assert_eq!(Operator::Plus.to_text(), "+");
    assert_eq!(Operator::Minus.to_text(), "-");
    assert_eq!(Operator::Multiplication.to_text(), "*");
    assert_eq!(Operator::Division.to_text(), "/");
}

#[test]
fn binary_sum_renders_with_spaces() {
    let tree = Node::BinaryExpr {
        op: Operator::Plus,
        lhs: Box::new(Node::Number(2.0f64.to_bits())),
        rhs: Box::new(Node::Number(3.0f64.to_bits())),
    };
    assert_eq!(render(&tree), "2 + 3");
}

#[test]
fn unary_minus_renders_glued() {
    let tree = Node::UnaryExpr {
        op: Operator::Minus,
        child: Box::new(Node::Number(5.0f64.to_bits())),
    };
    assert_eq!(render(&tree), "-5");
}

#[test]
fn nested_tree_renders_in_leaf_order() {
    let tree = Node::BinaryExpr {
        op: Operator::Multiplication,
        lhs: Box::new(Node::Number(2.0f64.to_bits())),
        rhs: Box::new(Node::BinaryExpr {
            op: Operator::Division,
            lhs: Box::new(Node::Number(3.5f64.to_bits())),
            rhs: Box::new(Node::UnaryExpr {
                op: Operator::Minus,
                child: Box::new(Node::Number(4.0f64.to_bits())),
            }),
        }),
    };
    assert_eq!(render(&tree), "2 * 3.5 / -4");
}
