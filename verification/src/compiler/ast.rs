//! Data structures representing an abstract syntax tree of the language.

use vstd::prelude::*;

verus! {

/// Holds either an integer value or the bit pattern of an IEEE-754
/// double-precision float value.
#[derive(Clone, Copy)]
pub enum Number {
    Integer(i64),
    Float(u64),
}

/// A big enum of every possible type of node in the AST.
///
/// The root node of an AST is usually a [`AstNode::Block`].
pub enum AstNode {
    Identifier(String),
    NumberLiteral(Number),
    StringLiteral(String),
    BooleanLiteral(bool),
    NilLiteral,
    FunctionCall { identifier: String, args: Vec<AstNode> },
    FunctionDef { args: Vec<String>, body: Box<AstNode> },
    UnaryOperation { kind: UnaryOperationKind, operand: Box<AstNode> },
    BinaryOperation { kind: BinaryOperationKind, left: Box<AstNode>, right: Box<AstNode> },
    Assignment { identifier: String, value: Box<AstNode> },
    Return { value: Option<Box<AstNode>> },
    Break,
    Continue,
    If { condition: Box<AstNode>, body: Box<AstNode>, else_body: Option<Box<AstNode>> },
    For {
        initialization: Option<Box<AstNode>>,
        condition: Option<Box<AstNode>>,
        increment: Option<Box<AstNode>>,
        body: Box<AstNode>,
    },
    While { condition: Box<AstNode>, body: Box<AstNode> },
    Loop { body: Box<AstNode> },
    Block(Vec<AstNode>),
}

/// The type of a unary operation.
#[derive(Clone, Copy, Debug, Eq, PartialEq, Structural)]
pub enum UnaryOperationKind {
    Negate,
    Not,
}

impl UnaryOperationKind {
    /// The conventional double-underscore method name of the operation.
    pub fn dunder(&self) -> (r: String)
        ensures
            r@ == self.dunder_spec(),
    {
        let text: &str = match self {
            UnaryOperationKind::Negate => "__neg__",
            UnaryOperationKind::Not => "__not__",
        };
        text.to_owned()
    }

    /// What [`Self::dunder`] returns for each operation.
    pub open spec fn dunder_spec(self) -> Seq<char> {
        match self {
            UnaryOperationKind::Negate => "__neg__"@,
            UnaryOperationKind::Not => "__not__"@,
        }
    }
}

/// The type of a binary operation.
#[derive(Clone, Copy, Debug, Eq, PartialEq, Structural)]
pub enum BinaryOperationKind {
    Add,
    Subtract,
    Multiply,
    Divide,
    Remainder,
    Power,
    And,
    Or,
    Equal,
    NotEqual,
    GreaterThan,
    GreaterThanOrEqual,
    LessThan,
    LessThanOrEqual,
}

impl BinaryOperationKind {
    /// The conventional double-underscore method name of the operation.
    pub fn dunder(&self) -> (r: String)
        ensures
            r@ == self.dunder_spec(),
    {
        let text: &str = match self {
            BinaryOperationKind::Add => "__add__",
            BinaryOperationKind::Subtract => "__sub__",
            BinaryOperationKind::Multiply => "__mul__",
            BinaryOperationKind::Divide => "__div__",
            BinaryOperationKind::Remainder => "__rem__",
            BinaryOperationKind::Power => "__pow__",
            BinaryOperationKind::And => "__and__",
            BinaryOperationKind::Or => "__or__",
            BinaryOperationKind::Equal => "__eq__",
            BinaryOperationKind::NotEqual => "__ne__",
            BinaryOperationKind::GreaterThan => "__gt__",
            BinaryOperationKind::GreaterThanOrEqual => "__ge__",
            BinaryOperationKind::LessThan => "__lt__",
            BinaryOperationKind::LessThanOrEqual => "__le__",
        };
        text.to_owned()
    }

    /// What [`Self::dunder`] returns for each operation.
    pub open spec fn dunder_spec(self) -> Seq<char> {
        match self {
            BinaryOperationKind::Add => "__add__"@,
            BinaryOperationKind::Subtract => "__sub__"@,
            BinaryOperationKind::Multiply => "__mul__"@,
            BinaryOperationKind::Divide => "__div__"@,
            BinaryOperationKind::Remainder => "__rem__"@,
            BinaryOperationKind::Power => "__pow__"@,
            BinaryOperationKind::And => "__and__"@,
            BinaryOperationKind::Or => "__or__"@,
            BinaryOperationKind::Equal => "__eq__"@,
            BinaryOperationKind::NotEqual => "__ne__"@,
            BinaryOperationKind::GreaterThan => "__gt__"@,
            BinaryOperationKind::GreaterThanOrEqual => "__ge__"@,
            BinaryOperationKind::LessThan => "__lt__"@,
            BinaryOperationKind::LessThanOrEqual => "__le__"@,
        }
    }
}


/// The mathematical model of an AST node: text becomes character sequences
/// and child lists become sequences.
pub ghost enum AstV {
    Identifier(Seq<char>),
    NumberLiteral(Number),
    StringLiteral(Seq<char>),
    BooleanLiteral(bool),
    NilLiteral,
    FunctionCall { identifier: Seq<char>, args: Seq<AstV> },
    FunctionDef { args: Seq<Seq<char>>, body: Box<AstV> },
    UnaryOperation { kind: UnaryOperationKind, operand: Box<AstV> },
    BinaryOperation { kind: BinaryOperationKind, left: Box<AstV>, right: Box<AstV> },
    Assignment { identifier: Seq<char>, value: Box<AstV> },
    Return { value: Option<Box<AstV>> },
    Break,
    Continue,
    If { condition: Box<AstV>, body: Box<AstV>, else_body: Option<Box<AstV>> },
    For {
        initialization: Option<Box<AstV>>,
        condition: Option<Box<AstV>>,
        increment: Option<Box<AstV>>,
        body: Box<AstV>,
    },
    While { condition: Box<AstV>, body: Box<AstV> },
    Loop { body: Box<AstV> },
    Block(Seq<AstV>),
}

/// The model of an AST node.
pub open spec fn ast_view(ast: AstNode) -> AstV
    decreases ast, 0int,
{
    match ast {
        AstNode::Identifier(name) => AstV::Identifier(name@),
        AstNode::NumberLiteral(num) => AstV::NumberLiteral(num),
        AstNode::StringLiteral(s) => AstV::StringLiteral(s@),
        AstNode::BooleanLiteral(x) => AstV::BooleanLiteral(x),
        AstNode::NilLiteral => AstV::NilLiteral,
        AstNode::FunctionCall { identifier, args } => AstV::FunctionCall {
            identifier: identifier@,
            args: asts_view(args@),
        },
        AstNode::FunctionDef { args, body } => AstV::FunctionDef {
            args: names_view(args@),
            body: Box::new(ast_view(*body)),
        },
        AstNode::UnaryOperation { kind, operand } => AstV::UnaryOperation {
            kind,
            operand: Box::new(ast_view(*operand)),
        },
        AstNode::BinaryOperation { kind, left, right } => AstV::BinaryOperation {
            kind,
            left: Box::new(ast_view(*left)),
            right: Box::new(ast_view(*right)),
        },
        AstNode::Assignment { identifier, value } => AstV::Assignment {
            identifier: identifier@,
            value: Box::new(ast_view(*value)),
        },
        AstNode::Return { value } => AstV::Return {
            value: match value {
                Some(v) => Some(Box::new(ast_view(*v))),
                None => None,
            },
        },
        AstNode::Break => AstV::Break,
        AstNode::Continue => AstV::Continue,
        AstNode::If { condition, body, else_body } => AstV::If {
            condition: Box::new(ast_view(*condition)),
            body: Box::new(ast_view(*body)),
            else_body: match else_body {
                Some(e) => Some(Box::new(ast_view(*e))),
                None => None,
            },
        },
        AstNode::For { initialization, condition, increment, body } => AstV::For {
            initialization: match initialization {
                Some(x) => Some(Box::new(ast_view(*x))),
                None => None,
            },
            condition: match condition {
                Some(x) => Some(Box::new(ast_view(*x))),
                None => None,
            },
            increment: match increment {
                Some(x) => Some(Box::new(ast_view(*x))),
                None => None,
            },
            body: Box::new(ast_view(*body)),
        },
        AstNode::While { condition, body } => AstV::While {
            condition: Box::new(ast_view(*condition)),
            body: Box::new(ast_view(*body)),
        },
        AstNode::Loop { body } => AstV::Loop { body: Box::new(ast_view(*body)) },
        AstNode::Block(nodes) => AstV::Block(asts_view(nodes@)),
    }
}

/// The model of a sequence of AST nodes.
pub open spec fn asts_view(s: Seq<AstNode>) -> Seq<AstV>
    decreases s, 1int,
{
    if s.len() == 0 {
        Seq::empty()
    } else {
        seq![ast_view(s[0])] + asts_view(s.drop_first())
    }
}

/// The model of a sequence of names.
pub open spec fn names_view(s: Seq<String>) -> Seq<Seq<char>>
    decreases s,
{
    if s.len() == 0 {
        Seq::empty()
    } else {
        seq![s[0]@] + names_view(s.drop_first())
    }
}

/// The model of a node sequence has the same length, and each of its
/// elements is the model of the corresponding node.
pub proof fn lemma_asts_view(s: Seq<AstNode>)
    ensures
        asts_view(s).len() == s.len(),
        forall|i: int| 0 <= i < s.len() ==> asts_view(s)[i] == ast_view(s[i]),
    decreases s,
{
    if s.len() > 0 {
        lemma_asts_view(s.drop_first());
    }
}

/// The model of a name sequence has the same length, and each of its
/// elements is the view of the corresponding name.
pub proof fn lemma_names_view(s: Seq<String>)
    ensures
        names_view(s).len() == s.len(),
        forall|i: int| 0 <= i < s.len() ==> names_view(s)[i] == s[i]@,
    decreases s,
{
    if s.len() > 0 {
        lemma_names_view(s.drop_first());
    }
}

} // verus!
