use vstd::prelude::*;
use crate::tokens::{TokenSide, TokenType};

verus! {

/// A node of the syntax tree: a statement or an expression.
#[derive(Debug)]
#[allow(inconsistent_fields)]
pub enum ExpressionNode {
    VariableDeclaration { name: String, datatype: Option<String>, value: Box<ExpressionNode> },
    FunctionDeclaration { name: String, datatype: Option<String>, parameters: Vec<Parameter> },
    Call { callee: Box<ExpressionNode>, parameters: Vec<Parameter> },
    Member { left: Box<ExpressionNode>, right: Box<ExpressionNode> },
    Object { name: String },
    BinaryOperator(BinaryOperatorNode),
    UnaryOperator { operator: TokenType, operand: Box<ExpressionNode>, side: TokenSide },
    Number { text: String },
    Str { text: String },
    Boolean { value: bool },
    Null,
}

/// A binary operation; chains of them lean to the right.
#[derive(Debug)]
pub struct BinaryOperatorNode {
    pub operator: TokenType,
    pub left_operand: Box<ExpressionNode>,
    pub right_operand: Box<ExpressionNode>,
}

/// An argument at a call site, or a typed parameter of a function declaration.
#[derive(Debug)]
pub enum Parameter {
    Positional { value: ExpressionNode },
    Keyword { name: String, value: ExpressionNode },
    Typed { name: String, datatype: String },
}

/// The root of a parsed program: its statements in source order.
#[derive(Debug)]
pub struct BodyNode {
    pub nodes: Vec<ExpressionNode>,
}

/// The mathematical value of a syntax tree node.
#[allow(inconsistent_fields)]
pub enum Node {
    VariableDeclaration { name: Seq<char>, datatype: Option<Seq<char>>, value: Box<Node> },
    FunctionDeclaration { name: Seq<char>, datatype: Option<Seq<char>>, parameters: Seq<ParameterModel> },
    Call { callee: Box<Node>, parameters: Seq<ParameterModel> },
    Member { left: Box<Node>, right: Box<Node> },
    Object { name: Seq<char> },
    BinaryOperator { operator: TokenType, left: Box<Node>, right: Box<Node> },
    UnaryOperator { operator: TokenType, operand: Box<Node>, side: TokenSide },
    Number { text: Seq<char> },
    Str { text: Seq<char> },
    Boolean { value: bool },
    Null,
}

/// The mathematical value of a parameter.
pub enum ParameterModel {
    Positional { value: Node },
    Keyword { name: Seq<char>, value: Node },
    Typed { name: Seq<char>, datatype: Seq<char> },
}

pub open spec fn opt_view(o: Option<String>) -> Option<Seq<char>> {
    match o {
        Some(s) => Some(s@),
        None => None,
    }
}

pub open spec fn node_view(n: ExpressionNode) -> Node
    decreases n,
{
    match n {
        ExpressionNode::VariableDeclaration { name, datatype, value } => Node::VariableDeclaration {
            name: name@,
            datatype: opt_view(datatype),
            value: Box::new(node_view(*value)),
        },
        ExpressionNode::FunctionDeclaration { name, datatype, parameters } => {
            Node::FunctionDeclaration {
                name: name@,
                datatype: opt_view(datatype),
                parameters: parameters@.map(
                    |i: int, p: Parameter|
                        if 0 <= i < parameters@.len() && p == parameters@[i] {
                            param_view(p)
                        } else {
                            ParameterModel::Typed { name: Seq::empty(), datatype: Seq::empty() }
                        },
                ),
            }
        },
        ExpressionNode::Call { callee, parameters } => Node::Call {
            callee: Box::new(node_view(*callee)),
            parameters: parameters@.map(
                |i: int, p: Parameter|
                    if 0 <= i < parameters@.len() && p == parameters@[i] {
                        param_view(p)
                    } else {
                        ParameterModel::Typed { name: Seq::empty(), datatype: Seq::empty() }
                    },
            ),
        },
        ExpressionNode::Member { left, right } => Node::Member {
            left: Box::new(node_view(*left)),
            right: Box::new(node_view(*right)),
        },
        ExpressionNode::Object { name } => Node::Object { name: name@ },
        ExpressionNode::BinaryOperator(b) => Node::BinaryOperator {
            operator: b.operator,
            left: Box::new(node_view(*b.left_operand)),
            right: Box::new(node_view(*b.right_operand)),
        },
        ExpressionNode::UnaryOperator { operator, operand, side } => Node::UnaryOperator {
            operator,
            operand: Box::new(node_view(*operand)),
            side,
        },
        ExpressionNode::Number { text } => Node::Number { text: text@ },
        ExpressionNode::Str { text } => Node::Str { text: text@ },
        ExpressionNode::Boolean { value } => Node::Boolean { value },
        ExpressionNode::Null => Node::Null,
    }
}

pub open spec fn param_view(p: Parameter) -> ParameterModel
    decreases p,
{
    match p {
        Parameter::Positional { value } => ParameterModel::Positional { value: node_view(value) },
        Parameter::Keyword { name, value } => ParameterModel::Keyword {
            name: name@,
            value: node_view(value),
        },
        Parameter::Typed { name, datatype } => ParameterModel::Typed {
            name: name@,
            datatype: datatype@,
        },
    }
}

pub open spec fn params_view(ps: Seq<Parameter>) -> Seq<ParameterModel> {
    ps.map_values(|p: Parameter| param_view(p))
}

impl View for ExpressionNode {
    type V = Node;

    open spec fn view(&self) -> Node {
        node_view(*self)
    }
}

impl View for BodyNode {
    type V = Seq<Node>;

    open spec fn view(&self) -> Seq<Node> {
        self.nodes@.map_values(|n: ExpressionNode| node_view(n))
    }
}

impl BinaryOperatorNode {
    pub fn new(operator: TokenType, left_operand: ExpressionNode, right_operand: ExpressionNode) -> (r: Self)
        ensures
            r.operator == operator,
            *r.left_operand == left_operand,
            *r.right_operand == right_operand,
    {
        BinaryOperatorNode {
            operator,
            left_operand: Box::new(left_operand),
            right_operand: Box::new(right_operand),
        }
    }
}

impl BodyNode {
    pub fn new() -> (r: Self)
        ensures
            r.nodes@.len() == 0,
    {
        BodyNode { nodes: Vec::new() }
    }
}

} // verus!
