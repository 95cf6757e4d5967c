use vstd::prelude::*;
use vstd::string::*;
use crate::lexer::token::TokenType;

verus! {

/// A number as it is written in a program.
#[derive(Debug, PartialEq)]
pub enum NumberLiteral {
    /// A run of digits.
    Integer(usize),
    /// Digits, a dot, digits: the text as written.
    Decimal(String),
}

/// A part of a template string: text to take as it is, or a name to look up.
/// The type is generic in how text is held, as `TokenType` is.
#[derive(Debug, PartialEq)]
pub enum TemplateToken<S = String> {
    Literal(S),
    Expression(S),
}

#[derive(Debug, PartialEq)]
pub struct TemplateString {
    pub tokens: Vec<TemplateToken>,
}

/// A statement or an expression of a program.
#[derive(Debug, PartialEq)]
pub enum ASTNode {
    Program(Box<Vec<ASTNode>>),
    IfStatement(IfStatement),
    BlockStatement(BlockStatement),
    ReturnStatement(Box<ASTNode>),
    ForStatement(ForStatement),
    MemberExpression(MemberExpression),
    IndexExpression(IndexExpression),
    FunctionStatement(FunctionStatement),
    CallExpression(CallExpression),
    VariableExpression(VariableExpression),
    BinaryExpression(BinaryExpression),
    UnaryExpression(Box<ASTNode>),
    RangeExpression(RangeExpression),
    Number(NumberLiteral),
    Boolean(bool),
    String(String),
    TemplateString(TemplateString),
    Identifier(String),
    Nothing,
    List(Box<Vec<ASTNode>>),
    Command(Box<Vec<ASTNode>>),
}

#[derive(Debug, PartialEq)]
pub struct ForStatement {
    pub variable: String,
    pub iterable: Box<Iterable>,
    pub body: Box<ASTNode>,
}

#[derive(Debug, PartialEq)]
pub enum Iterable {
    RangeExpression(RangeExpression),
    Collection(ASTNode),
}

#[derive(Debug, PartialEq)]
pub struct RangeExpression {
    pub start: Box<ASTNode>,
    pub end: Box<ASTNode>,
    pub increment: Option<Box<ASTNode>>,
}

#[derive(Debug, PartialEq)]
pub struct IndexExpression {
    pub base: Box<ASTNode>,
    pub index: Box<ASTNode>,
}

#[derive(Debug, PartialEq)]
pub struct MemberExpression {
    pub base: Box<ASTNode>,
    pub property: String,
}

#[derive(Debug, PartialEq)]
pub struct BinaryExpression {
    pub left: Box<ASTNode>,
    pub operator: TokenType,
    pub right: Box<ASTNode>,
}

#[derive(Debug, PartialEq)]
pub struct VariableExpression {
    pub lhs: Box<ASTNode>,
    pub rhs: Box<ASTNode>,
}

#[derive(Debug, PartialEq)]
pub struct FunctionStatement {
    pub name: String,
    pub body: Box<ASTNode>,
    pub args: Vec<String>,
}

#[derive(Debug, PartialEq)]
pub struct CallExpression {
    pub base: Box<ASTNode>,
    pub args: Vec<ASTNode>,
}

#[derive(Debug, PartialEq)]
pub struct IfStatement {
    pub condition: Box<ASTNode>,
    pub consequence: Box<ASTNode>,
    pub alternative: Option<Box<ASTNode>>,
}

#[derive(Debug, PartialEq)]
pub struct BlockStatement {
    pub body: Box<Vec<ASTNode>>,
}

/// What a function definition says: its name, the names of its parameters
/// and its body.
pub struct FunctionView {
    pub name: Seq<char>,
    pub args: Seq<Seq<char>>,
    pub body: Box<Node>,
}

/// The tree that an `ASTNode` stands for: the model that contracts speak of.
pub enum Node {
    Program(Seq<Node>),
    If { condition: Box<Node>, consequence: Box<Node>, alternative: Option<Box<Node>> },
    Block(Seq<Node>),
    Return(Box<Node>),
    /// `ranged` tells an iterable that was written as a range in the header
    /// of the loop, which `iterable` then is, from an expression.
    For { variable: Seq<char>, ranged: bool, iterable: Box<Node>, body: Box<Node> },
    Member { base: Box<Node>, property: Seq<char> },
    Index { base: Box<Node>, index: Box<Node> },
    Function(FunctionView),
    Call { base: Box<Node>, args: Seq<Node> },
    Variable { lhs: Box<Node>, rhs: Box<Node> },
    Binary { left: Box<Node>, operator: TokenType<Seq<char>>, right: Box<Node> },
    Unary(Box<Node>),
    Range { start: Box<Node>, end: Box<Node>, increment: Option<Box<Node>> },
    Integer(usize),
    Decimal(Seq<char>),
    Boolean(bool),
    String(Seq<char>),
    Template(Seq<TemplateToken<Seq<char>>>),
    Identifier(Seq<char>),
    Nothing,
    List(Seq<Node>),
    Command(Seq<Node>),
}

impl View for TemplateToken<String> {
    type V = TemplateToken<Seq<char>>;

    open spec fn view(&self) -> TemplateToken<Seq<char>> {
        match self {
            TemplateToken::Literal(s) => TemplateToken::Literal(s@),
            TemplateToken::Expression(s) => TemplateToken::Expression(s@),
        }
    }
}

impl Clone for TemplateToken<String> {
    fn clone(&self) -> (r: Self)
        ensures
            r@ == self@,
    {
        match self {
            TemplateToken::Literal(s) => TemplateToken::Literal(s.clone()),
            TemplateToken::Expression(s) => TemplateToken::Expression(s.clone()),
        }
    }
}

/// The texts of a run of strings.
pub open spec fn texts(names: Seq<String>) -> Seq<Seq<char>> {
    Seq::new(names.len(), |i: int| names[i]@)
}

/// The parts of a template string.
pub open spec fn template_view(tokens: Seq<TemplateToken>) -> Seq<TemplateToken<Seq<char>>> {
    Seq::new(tokens.len(), |i: int| tokens[i]@)
}

/// The trees of a run of nodes.
pub open spec fn view_all(nodes: Seq<ASTNode>) -> Seq<Node>
    decreases nodes,
{
    Seq::new(
        nodes.len(),
        |i: int|
            if 0 <= i < nodes.len() {
                node_view(nodes[i])
            } else {
                Node::Nothing
            },
    )
}

/// The tree of an optional node.
pub open spec fn option_view(node: Option<Box<ASTNode>>) -> Option<Box<Node>> {
    match node {
        Some(n) => Some(Box::new(node_view(*n))),
        None => None,
    }
}

/// The tree of a range expression.
pub open spec fn range_view(range: RangeExpression) -> Node {
    Node::Range {
        start: Box::new(node_view(*range.start)),
        end: Box::new(node_view(*range.end)),
        increment: option_view(range.increment),
    }
}

/// What a function definition says.
pub open spec fn function_view(f: FunctionStatement) -> FunctionView {
    FunctionView { name: f.name@, args: texts(f.args@), body: Box::new(node_view(*f.body)) }
}

/// The tree that a node stands for.
pub open spec fn node_view(node: ASTNode) -> Node
    decreases node,
{
    match node {
        ASTNode::Program(body) => Node::Program(view_all(body@)),
        ASTNode::IfStatement(s) => Node::If {
            condition: Box::new(node_view(*s.condition)),
            consequence: Box::new(node_view(*s.consequence)),
            alternative: match s.alternative {
                Some(n) => Some(Box::new(node_view(*n))),
                None => None,
            },
        },
        ASTNode::BlockStatement(b) => Node::Block(view_all(b.body@)),
        ASTNode::ReturnStatement(e) => Node::Return(Box::new(node_view(*e))),
        ASTNode::ForStatement(f) => match *f.iterable {
            Iterable::RangeExpression(range) => Node::For {
                variable: f.variable@,
                ranged: true,
                iterable: Box::new(
                    Node::Range {
                        start: Box::new(node_view(*range.start)),
                        end: Box::new(node_view(*range.end)),
                        increment: match range.increment {
                            Some(n) => Some(Box::new(node_view(*n))),
                            None => None,
                        },
                    },
                ),
                body: Box::new(node_view(*f.body)),
            },
            Iterable::Collection(e) => Node::For {
                variable: f.variable@,
                ranged: false,
                iterable: Box::new(node_view(e)),
                body: Box::new(node_view(*f.body)),
            },
        },
        ASTNode::MemberExpression(m) => Node::Member {
            base: Box::new(node_view(*m.base)),
            property: m.property@,
        },
        ASTNode::IndexExpression(e) => Node::Index {
            base: Box::new(node_view(*e.base)),
            index: Box::new(node_view(*e.index)),
        },
        ASTNode::FunctionStatement(f) => Node::Function(
            FunctionView {
                name: f.name@,
                args: texts(f.args@),
                body: Box::new(node_view(*f.body)),
            },
        ),
        ASTNode::CallExpression(c) => Node::Call {
            base: Box::new(node_view(*c.base)),
            args: view_all(c.args@),
        },
        ASTNode::VariableExpression(v) => Node::Variable {
            lhs: Box::new(node_view(*v.lhs)),
            rhs: Box::new(node_view(*v.rhs)),
        },
        ASTNode::BinaryExpression(b) => Node::Binary {
            left: Box::new(node_view(*b.left)),
            operator: b.operator@,
            right: Box::new(node_view(*b.right)),
        },
        ASTNode::UnaryExpression(e) => Node::Unary(Box::new(node_view(*e))),
        ASTNode::RangeExpression(range) => Node::Range {
            start: Box::new(node_view(*range.start)),
            end: Box::new(node_view(*range.end)),
            increment: match range.increment {
                Some(n) => Some(Box::new(node_view(*n))),
                None => None,
            },
        },
        ASTNode::Number(NumberLiteral::Integer(n)) => Node::Integer(n),
        ASTNode::Number(NumberLiteral::Decimal(s)) => Node::Decimal(s@),
        ASTNode::Boolean(b) => Node::Boolean(b),
        ASTNode::String(s) => Node::String(s@),
        ASTNode::TemplateString(t) => Node::Template(template_view(t.tokens@)),
        ASTNode::Identifier(s) => Node::Identifier(s@),
        ASTNode::Nothing => Node::Nothing,
        ASTNode::List(items) => Node::List(view_all(items@)),
        ASTNode::Command(parts) => Node::Command(view_all(parts@)),
    }
}

impl View for ASTNode {
    type V = Node;

    open spec fn view(&self) -> Node {
        node_view(*self)
    }
}

impl View for FunctionStatement {
    type V = FunctionView;

    open spec fn view(&self) -> FunctionView {
        function_view(*self)
    }
}

impl View for RangeExpression {
    type V = Node;

    open spec fn view(&self) -> Node {
        range_view(*self)
    }
}

/// A node stands for a range exactly where it is a range expression.
pub proof fn lemma_range_node(node: ASTNode)
    ensures
        node@ is Range <==> node is RangeExpression,
        node is RangeExpression ==> node@ == range_view(node->RangeExpression_0),
{
    match node {
        ASTNode::ForStatement(f) => {
            match *f.iterable {
                Iterable::RangeExpression(_) => {},
                Iterable::Collection(_) => {},
            }
        },
        ASTNode::Number(n) => {
            match n {
                NumberLiteral::Integer(_) => {},
                NumberLiteral::Decimal(_) => {},
            }
        },
        _ => {},
    }
}

/// A node stands for a call exactly where it is a call expression.
pub proof fn lemma_call_node(node: ASTNode)
    ensures
        node@ is Call <==> node is CallExpression,
{
    match node {
        ASTNode::ForStatement(f) => {
            match *f.iterable {
                Iterable::RangeExpression(_) => {},
                Iterable::Collection(_) => {},
            }
        },
        ASTNode::Number(n) => {
            match n {
                NumberLiteral::Integer(_) => {},
                NumberLiteral::Decimal(_) => {},
            }
        },
        _ => {},
    }
}

/// A node stands for a return exactly where it is a return statement.
pub proof fn lemma_return_node(node: ASTNode)
    ensures
        node@ is Return <==> node is ReturnStatement,
{
    match node {
        ASTNode::ForStatement(f) => {
            match *f.iterable {
                Iterable::RangeExpression(_) => {},
                Iterable::Collection(_) => {},
            }
        },
        ASTNode::Number(n) => {
            match n {
                NumberLiteral::Integer(_) => {},
                NumberLiteral::Decimal(_) => {},
            }
        },
        _ => {},
    }
}

/// A copy of a run of names.
pub fn clone_names(names: &Vec<String>) -> (r: Vec<String>)
    ensures
        texts(r@) == texts(names@),
        r@.len() == names@.len(),
{
    let mut out: Vec<String> = Vec::new();
    let mut i: usize = 0;
    while i < names.len()
        invariant
            i <= names.len(),
            out.len() == i,
            forall|k: int| 0 <= k < i ==> out[k]@ == names[k]@,
        decreases names.len() - i,
    {
        out.push(names[i].clone());
        i = i + 1;
    }
    proof {
        assert(texts(out@) =~= texts(names@));
    }
    out
}

/// A copy of a run of nodes.
pub fn clone_nodes(nodes: &Vec<ASTNode>) -> (r: Vec<ASTNode>)
    ensures
        view_all(r@) == view_all(nodes@),
        r@.len() == nodes@.len(),
    decreases nodes, 0nat,
{
    let mut out: Vec<ASTNode> = Vec::new();
    let mut i: usize = 0;
    while i < nodes.len()
        invariant
            i <= nodes.len(),
            out.len() == i,
            forall|k: int| 0 <= k < i ==> node_view(out[k]) == node_view(nodes[k]),
        decreases nodes.len() - i,
    {
        out.push(nodes[i].clone());
        i = i + 1;
    }
    proof {
        assert(view_all(out@) =~= view_all(nodes@));
    }
    out
}

fn clone_option(node: &Option<Box<ASTNode>>) -> (r: Option<Box<ASTNode>>)
    ensures
        option_view(r) == option_view(*node),
    decreases node, 0nat,
{
    match node {
        Some(n) => Some(Box::new((&**n).clone())),
        None => None,
    }
}

impl Clone for RangeExpression {
    fn clone(&self) -> (r: Self)
        ensures
            r@ == self@,
        decreases self, 1nat,
    {
        RangeExpression {
            start: Box::new((&*self.start).clone()),
            end: Box::new((&*self.end).clone()),
            increment: clone_option(&self.increment),
        }
    }
}

impl Clone for FunctionStatement {
    fn clone(&self) -> (r: Self)
        ensures
            r@ == self@,
        decreases self, 1nat,
    {
        FunctionStatement {
            name: self.name.clone(),
            body: Box::new((&*self.body).clone()),
            args: clone_names(&self.args),
        }
    }
}

impl Clone for TemplateString {
    fn clone(&self) -> (r: Self)
        ensures
            template_view(r.tokens@) == template_view(self.tokens@),
    {
        let mut out: Vec<TemplateToken> = Vec::new();
        let mut i: usize = 0;
        while i < self.tokens.len()
            invariant
                i <= self.tokens.len(),
                out.len() == i,
                forall|k: int| 0 <= k < i ==> out[k]@ == self.tokens[k]@,
            decreases self.tokens.len() - i,
        {
            out.push(self.tokens[i].clone());
            i = i + 1;
        }
        proof {
            assert(template_view(out@) =~= template_view(self.tokens@));
        }
        TemplateString { tokens: out }
    }
}

impl Clone for NumberLiteral {
    fn clone(&self) -> (r: Self)
        ensures
            node_view(ASTNode::Number(r)) == node_view(ASTNode::Number(*self)),
    {
        match self {
            NumberLiteral::Integer(n) => NumberLiteral::Integer(*n),
            NumberLiteral::Decimal(s) => NumberLiteral::Decimal(s.clone()),
        }
    }
}

impl Clone for ASTNode {
    fn clone(&self) -> (r: Self)
        ensures
            r@ == self@,
        decreases self, 1nat,
    {
        match self {
            ASTNode::Program(body) => ASTNode::Program(Box::new(clone_nodes(body))),
            ASTNode::IfStatement(s) => ASTNode::IfStatement(
                IfStatement {
                    condition: Box::new((&*s.condition).clone()),
                    consequence: Box::new((&*s.consequence).clone()),
                    alternative: clone_option(&s.alternative),
                },
            ),
            ASTNode::BlockStatement(b) => ASTNode::BlockStatement(
                BlockStatement { body: Box::new(clone_nodes(&b.body)) },
            ),
            ASTNode::ReturnStatement(e) => ASTNode::ReturnStatement(Box::new((&**e).clone())),
            ASTNode::ForStatement(f) => {
                let iterable = match &*f.iterable {
                    Iterable::RangeExpression(range) => Iterable::RangeExpression(range.clone()),
                    Iterable::Collection(e) => Iterable::Collection(e.clone()),
                };
                ASTNode::ForStatement(
                    ForStatement {
                        variable: f.variable.clone(),
                        iterable: Box::new(iterable),
                        body: Box::new((&*f.body).clone()),
                    },
                )
            },
            ASTNode::MemberExpression(m) => ASTNode::MemberExpression(
                MemberExpression {
                    base: Box::new((&*m.base).clone()),
                    property: m.property.clone(),
                },
            ),
            ASTNode::IndexExpression(e) => ASTNode::IndexExpression(
                IndexExpression {
                    base: Box::new((&*e.base).clone()),
                    index: Box::new((&*e.index).clone()),
                },
            ),
            ASTNode::FunctionStatement(f) => ASTNode::FunctionStatement(f.clone()),
            ASTNode::CallExpression(c) => ASTNode::CallExpression(
                CallExpression { base: Box::new((&*c.base).clone()), args: clone_nodes(&c.args) },
            ),
            ASTNode::VariableExpression(v) => ASTNode::VariableExpression(
                VariableExpression {
                    lhs: Box::new((&*v.lhs).clone()),
                    rhs: Box::new((&*v.rhs).clone()),
                },
            ),
            ASTNode::BinaryExpression(b) => ASTNode::BinaryExpression(
                BinaryExpression {
                    left: Box::new((&*b.left).clone()),
                    operator: b.operator.clone(),
                    right: Box::new((&*b.right).clone()),
                },
            ),
            ASTNode::UnaryExpression(e) => ASTNode::UnaryExpression(Box::new((&**e).clone())),
            ASTNode::RangeExpression(range) => ASTNode::RangeExpression(range.clone()),
            ASTNode::Number(n) => ASTNode::Number(n.clone()),
            ASTNode::Boolean(b) => ASTNode::Boolean(*b),
            ASTNode::String(s) => ASTNode::String(s.clone()),
            ASTNode::TemplateString(t) => ASTNode::TemplateString(t.clone()),
            ASTNode::Identifier(s) => ASTNode::Identifier(s.clone()),
            ASTNode::Nothing => ASTNode::Nothing,
            ASTNode::List(items) => ASTNode::List(Box::new(clone_nodes(items))),
            ASTNode::Command(parts) => ASTNode::Command(Box::new(clone_nodes(parts))),
        }
    }
}

} // verus!
