use vstd::prelude::*;
use crate::ast::ast::{FunctionView, Node, TemplateToken};
use crate::error::ErrorKind;
use crate::lexer::token::{display_text, ends_line, TokenType};

verus! {

/// What a parser reads: the tokens of a source text, whitespace among them,
/// and the names that are taken as commands.
pub struct Source {
    pub tokens: Seq<TokenType<Seq<char>>>,
    pub commands: Seq<Seq<char>>,
}

/// The result of reading a construct: what was read and the position behind
/// it, or the token that reading failed at, which was not expected there.
pub type Parsed<T> = Result<(T, int), TokenType<Seq<char>>>;

/// What the message of a parse error says of the token that was not
/// expected: that the input has ended, or which token it is, by its display
/// form.
pub open spec fn unexpected_text(token: TokenType<Seq<char>>) -> Seq<char> {
    if token is EOF {
        "EOF"@
    } else {
        "unexpected token "@ + display_text(token)
    }
}

/// Why a source text has no program: it holds a lexical error, or a token
/// that was not expected where it stands.
pub enum Failure {
    Lexical,
    Unexpected(TokenType<Seq<char>>),
}

impl Source {
    /// The tokens end with the end of input, and hold it nowhere else.
    pub open spec fn wf(self) -> bool {
        &&& self.tokens.len() >= 1
        &&& self.tokens.last() is EOF
        &&& forall|i: int| 0 <= i < self.tokens.len() - 1 ==> !(#[trigger] self.tokens[i] is EOF)
    }

    /// The token at a position; behind the tokens, the end of input.
    pub open spec fn at(self, pos: int) -> TokenType<Seq<char>> {
        if 0 <= pos < self.tokens.len() {
            self.tokens[pos]
        } else {
            TokenType::EOF
        }
    }

    /// How many tokens are left from a position on: what every step of the
    /// grammar makes smaller.
    pub open spec fn left(self, pos: int) -> nat {
        if 0 <= pos < self.tokens.len() {
            (self.tokens.len() - pos) as nat
        } else {
            0
        }
    }

    /// The first position from `pos` on that holds no whitespace.
    pub open spec fn skip_blank(self, pos: int) -> int
        decreases self.left(pos),
    {
        if 0 <= pos < self.tokens.len() && self.tokens[pos] is Whitespace {
            self.skip_blank(pos + 1)
        } else {
            pos
        }
    }

    /// The position of the next token that is no whitespace. The end of
    /// input is never left. The result lies behind `pos` unless `pos` holds
    /// the end of input.
    pub open spec fn next(self, pos: int) -> int {
        if self.at(pos) is EOF {
            pos
        } else if self.skip_blank(pos + 1) > pos {
            self.skip_blank(pos + 1)
        } else {
            pos + 1
        }
    }

    /// The position of the next token, whitespace included: the step that is
    /// taken inside a command.
    pub open spec fn next_cmd(self, pos: int) -> int {
        if self.at(pos) is EOF {
            pos
        } else {
            pos + 1
        }
    }

    /// Whether a name is taken as a command.
    pub open spec fn is_command(self, name: Seq<char>) -> bool {
        self.commands.contains(name)
    }
}

/// A position that lies behind `from`: `to` itself wherever reading moved
/// on, as it always does.
pub open spec fn forward(from: int, to: int) -> int {
    if to > from {
        to
    } else {
        from + 1
    }
}

/// How strongly an operator binds; 0 for what is no operator.
pub open spec fn precedence_of(operator: TokenType<Seq<char>>) -> nat {
    match operator {
        TokenType::Carat => 5,
        TokenType::Asterisk => 3,
        TokenType::ForwardSlash => 3,
        TokenType::Plus => 2,
        TokenType::Minus => 2,
        TokenType::DoubleEquals => 1,
        TokenType::NotEquals => 1,
        TokenType::GreaterThan => 1,
        TokenType::LessThan => 1,
        TokenType::Ge => 1,
        TokenType::Le => 1,
        TokenType::And => 1,
        TokenType::Or => 1,
        _ => 0,
    }
}

/// The precedence that the right operand of an operator is read with. It
/// is that of the operator, so that operators of one precedence group to the
/// left; for `^` it is one less, so that `^` groups to the right.
pub open spec fn right_precedence(operator: TokenType<Seq<char>>) -> nat {
    if operator is Carat {
        4
    } else {
        precedence_of(operator)
    }
}

/// Whether a token is an identifier with the given text.
pub open spec fn is_word(token: TokenType<Seq<char>>, word: Seq<char>) -> bool {
    token == TokenType::Identifier(word)
}

/// Whether a character ends the name of a `$name` run in a template
/// string.
pub open spec fn ends_name(c: char) -> bool {
    c == ' ' || c == '\t' || c == '\r' || c == '\n'
}

/// The end of the name that starts at `from`: the first position that holds
/// white space, or the end of the text.
pub open spec fn name_end(text: Seq<char>, from: int) -> int
    decreases text.len() - from,
{
    if 0 <= from < text.len() && !ends_name(text[from]) {
        name_end(text, from + 1)
    } else {
        from
    }
}

/// The end of the literal run that starts at `from`: the first position that
/// holds a `$`, or the end of the text.
pub open spec fn literal_end(text: Seq<char>, from: int) -> int
    decreases text.len() - from,
{
    if 0 <= from < text.len() && text[from] != '$' {
        literal_end(text, from + 1)
    } else {
        from
    }
}

/// The parts of a template string from a position on. A `$` with a name
/// behind it is a name to look up, which ends at white space; a `$` alone is
/// the text `$`; everything else is text up to the next `$`.
pub open spec fn template_parts(text: Seq<char>, from: int) -> Seq<TemplateToken<Seq<char>>>
    decreases text.len() - from,
{
    if from < 0 || from >= text.len() {
        Seq::empty()
    } else if text[from] == '$' {
        let end = name_end(text, from + 1);
        if end <= from + 1 || end > text.len() {
            seq![TemplateToken::Literal("$"@)] + template_parts(text, from + 1)
        } else {
            seq![TemplateToken::Expression(text.subrange(from + 1, end))] + template_parts(
                text,
                end,
            )
        }
    } else {
        let end = literal_end(text, from);
        if end <= from || end > text.len() {
            Seq::empty()
        } else {
            seq![TemplateToken::Literal(text.subrange(from, end))] + template_parts(text, end)
        }
    }
}

impl Source {
    /// Taking the token at `pos`, which has to be the expected one.
    pub open spec fn eat(self, pos: int, expected: TokenType<Seq<char>>) -> Result<
        int,
        TokenType<Seq<char>>,
    > {
        if self.at(pos) is EOF || self.at(pos) != expected {
            Err(self.at(pos))
        } else {
            Ok(self.next(pos))
        }
    }

    /// Taking the name at `pos`: an identifier, escaped or not.
    pub open spec fn eat_identifier(self, pos: int) -> Parsed<Seq<char>> {
        match self.at(pos) {
            TokenType::Identifier(name) => Ok((name, self.next(pos))),
            TokenType::EscapedIdentifier(name) => Ok((name, self.next(pos))),
            _ => Err(self.at(pos)),
        }
    }

    /// `Program = (Newline | Statement)*`
    pub open spec fn program(self) -> Result<Node, TokenType<Seq<char>>> {
        match self.statement_list(self.skip_blank(0)) {
            Ok((body, _)) => Ok(Node::Program(body)),
            Err(e) => Err(e),
        }
    }

    /// The statements up to the end of input, each on a line of its own.
    pub open spec fn statement_list(self, pos: int) -> Parsed<Seq<Node>>
        decreases self.left(pos), 19nat,
    {
        if self.at(pos) is EOF {
            Ok((Seq::empty(), pos))
        } else if self.at(pos) is Newline {
            self.statement_list(self.next(pos))
        } else {
            match self.statement_line(pos, true) {
                Err(e) => Err(e),
                Ok((node, p1)) => match self.statement_list(forward(pos, p1)) {
                    Err(e) => Err(e),
                    Ok((rest, p2)) => Ok((seq![node] + rest, p2)),
                },
            }
        }
    }

    /// A statement and the newline that ends its line. Where `last` is set,
    /// the end of input ends the line as well.
    pub open spec fn statement_line(self, pos: int, last: bool) -> Parsed<Node>
        decreases self.left(pos), 18nat, 1nat,
    {
        match self.statement(pos) {
            Err(e) => Err(e),
            Ok((node, p1)) => if last && self.at(p1) is EOF {
                Ok((node, p1))
            } else {
                match self.eat(p1, TokenType::Newline) {
                    Err(e) => Err(e),
                    Ok(p2) => Ok((node, p2)),
                }
            },
        }
    }

    /// `Statement = "func" FuncStmt | "if" IfStmt | "for" ForStmt | Expression`
    pub open spec fn statement(self, pos: int) -> Parsed<Node>
        decreases self.left(pos), 18nat, 0nat,
    {
        if is_word(self.at(pos), "func"@) {
            self.function_expression(pos)
        } else if is_word(self.at(pos), "if"@) {
            self.if_statement(pos)
        } else if is_word(self.at(pos), "for"@) {
            self.for_statement(pos)
        } else {
            self.expression(pos, 0)
        }
    }

    /// `for Ident in Iterable Block`
    pub open spec fn for_statement(self, pos: int) -> Parsed<Node>
        decreases self.left(pos), 17nat,
    {
        if !is_word(self.at(pos), "for"@) {
            Err(self.at(pos))
        } else {
            match self.eat_identifier(self.next(pos)) {
                Err(e) => Err(e),
                Ok((variable, p2)) => match self.eat(p2, TokenType::Identifier("in"@)) {
                    Err(e) => Err(e),
                    Ok(p3) => match self.iterable(forward(pos, p3)) {
                        Err(e) => Err(e),
                        Ok(((ranged, iterable), p4)) => match self.block_statement(
                            forward(pos, p4),
                        ) {
                            Err(e) => Err(e),
                            Ok((body, p5)) => Ok(
                                (
                                    Node::For {
                                        variable,
                                        ranged,
                                        iterable: Box::new(iterable),
                                        body: Box::new(body),
                                    },
                                    p5,
                                ),
                            ),
                        },
                    },
                },
            }
        }
    }

    /// What a loop runs over: an expression, which is the start of a range
    /// where `..` follows it.
    pub open spec fn iterable(self, pos: int) -> Parsed<(bool, Node)>
        decreases self.left(pos), 11nat,
    {
        match self.expression(pos, 0) {
            Err(e) => Err(e),
            Ok((expression, p1)) => if self.at(p1) is Dot {
                match self.range_expression(expression, forward(pos, p1)) {
                    Err(e) => Err(e),
                    Ok((range, p2)) => Ok(((true, range), p2)),
                }
            } else {
                Ok(((false, expression), p1))
            },
        }
    }

    /// `start ".." end (".." increment)?`, from the first dot on.
    pub open spec fn range_expression(self, start: Node, pos: int) -> Parsed<Node>
        decreases self.left(pos), 7nat,
    {
        match self.eat(pos, TokenType::Dot) {
            Err(e) => Err(e),
            Ok(p1) => match self.eat(p1, TokenType::Dot) {
                Err(e) => Err(e),
                Ok(p2) => match self.expression(forward(pos, p2), 0) {
                    Err(e) => Err(e),
                    Ok((node, p3)) => match node {
                        Node::Range { start: end, end: increment, increment: _ } => Ok(
                            (
                                Node::Range {
                                    start: Box::new(start),
                                    end,
                                    increment: Some(increment),
                                },
                                p3,
                            ),
                        ),
                        _ => Ok(
                            (
                                Node::Range {
                                    start: Box::new(start),
                                    end: Box::new(node),
                                    increment: None,
                                },
                                p3,
                            ),
                        ),
                    },
                },
            },
        }
    }

    /// `if Expr Block (else (If | Block))?`
    pub open spec fn if_statement(self, pos: int) -> Parsed<Node>
        decreases self.left(pos), 17nat,
    {
        if !is_word(self.at(pos), "if"@) {
            Err(self.at(pos))
        } else {
            match self.expression(self.next(pos), 0) {
                Err(e) => Err(e),
                Ok((condition, p2)) => match self.block_statement(forward(pos, p2)) {
                    Err(e) => Err(e),
                    Ok((consequence, p3)) => match self.else_statement(forward(pos, p3)) {
                        Err(e) => Err(e),
                        Ok((alternative, p4)) => Ok(
                            (
                                Node::If {
                                    condition: Box::new(condition),
                                    consequence: Box::new(consequence),
                                    alternative,
                                },
                                p4,
                            ),
                        ),
                    },
                },
            }
        }
    }

    /// `(else (If | Block))?`
    pub open spec fn else_statement(self, pos: int) -> Parsed<Option<Box<Node>>>
        decreases self.left(pos), 16nat,
    {
        if !is_word(self.at(pos), "else"@) {
            Ok((None, pos))
        } else if is_word(self.at(self.next(pos)), "if"@) {
            match self.if_statement(self.next(pos)) {
                Err(e) => Err(e),
                Ok((node, p)) => Ok((Some(Box::new(node)), p)),
            }
        } else {
            match self.block_statement(self.next(pos)) {
                Err(e) => Err(e),
                Ok((node, p)) => Ok((Some(Box::new(node)), p)),
            }
        }
    }

    /// `"{" Newline BlockBody "}"`
    pub open spec fn block_statement(self, pos: int) -> Parsed<Node>
        decreases self.left(pos), 21nat,
    {
        match self.eat(pos, TokenType::OpenBraces) {
            Err(e) => Err(e),
            Ok(p1) => match self.eat(p1, TokenType::Newline) {
                Err(e) => Err(e),
                Ok(p2) => match self.block_body(forward(pos, p2)) {
                    Err(e) => Err(e),
                    Ok((body, p3)) => match self.eat(p3, TokenType::CloseBraces) {
                        Err(e) => Err(e),
                        Ok(p4) => Ok((Node::Block(body), p4)),
                    },
                },
            },
        }
    }

    /// The statements of a block, each ended by a newline, up to the closing
    /// brace.
    pub open spec fn block_body(self, pos: int) -> Parsed<Seq<Node>>
        decreases self.left(pos), 19nat,
    {
        if self.at(pos) is CloseBraces {
            Ok((Seq::empty(), pos))
        } else if self.at(pos) is Newline {
            self.block_body(self.next(pos))
        } else if self.at(pos) is EOF {
            Err(self.at(pos))
        } else {
            match self.statement_line(pos, false) {
                Err(e) => Err(e),
                Ok((node, p1)) => match self.block_body(forward(pos, p1)) {
                    Err(e) => Err(e),
                    Ok((rest, p2)) => Ok((seq![node] + rest, p2)),
                },
            }
        }
    }

    /// `Expression = Prefix (Infix)*`, where only operators are taken that
    /// bind more strongly than `precedence`.
    pub open spec fn expression(self, pos: int, precedence: nat) -> Parsed<Node>
        decreases self.left(pos), 10nat,
    {
        if self.at(pos) is EOF {
            Err(self.at(pos))
        } else {
            match self.prefix(pos) {
                Err(e) => Err(e),
                Ok((left, p1)) => self.infixes(left, forward(pos, p1), precedence),
            }
        }
    }

    /// The operators behind an operand, with their right operands, as far as
    /// they bind more strongly than `precedence`.
    pub open spec fn infixes(self, left: Node, pos: int, precedence: nat) -> Parsed<Node>
        decreases self.left(pos), 9nat,
    {
        if !ends_line(self.at(pos)) && precedence < precedence_of(self.at(pos)) {
            match self.infix(left, pos) {
                Err(e) => Err(e),
                Ok((node, p1)) => self.infixes(node, forward(pos, p1), precedence),
            }
        } else {
            Ok((left, pos))
        }
    }

    /// An operator and its right operand.
    pub open spec fn infix(self, left: Node, pos: int) -> Parsed<Node>
        decreases self.left(pos), 8nat,
    {
        let operator = self.at(pos);
        if precedence_of(operator) == 0 {
            Err(self.at(pos))
        } else {
            match self.expression(self.next(pos), right_precedence(operator)) {
                Err(e) => Err(e),
                Ok((right, p1)) => Ok(
                    (Node::Binary { left: Box::new(left), operator, right: Box::new(right) }, p1),
                ),
            }
        }
    }

    /// `lhs "=" Expression`, from the `=` on.
    pub open spec fn variable_statement(self, lhs: Node, pos: int) -> Parsed<Node>
        decreases self.left(pos), 7nat,
    {
        if !(self.at(pos) is Equals) {
            Err(self.at(pos))
        } else {
            match self.expression(self.next(pos), 0) {
                Err(e) => Err(e),
                Ok((rhs, p1)) => Ok(
                    (Node::Variable { lhs: Box::new(lhs), rhs: Box::new(rhs) }, p1),
                ),
            }
        }
    }

    /// `"func" Ident "(" (Ident ("," Ident)*)? ")" Block`
    pub open spec fn function_expression(self, pos: int) -> Parsed<Node>
        decreases self.left(pos), 17nat,
    {
        if !is_word(self.at(pos), "func"@) {
            Err(self.at(pos))
        } else {
            match self.eat_identifier(self.next(pos)) {
                Err(e) => Err(e),
                Ok((name, p1)) => match self.parameters(p1) {
                    Err(e) => Err(e),
                    Ok((args, p2)) => match self.block_statement(forward(pos, p2)) {
                        Err(e) => Err(e),
                        Ok((body, p3)) => Ok(
                            (
                                Node::Function(FunctionView { name, args, body: Box::new(body) }),
                                p3,
                            ),
                        ),
                    },
                },
            }
        }
    }

    /// The names of the parameters of a function, in their parentheses.
    pub open spec fn parameters(self, pos: int) -> Parsed<Seq<Seq<char>>> {
        match self.eat(pos, TokenType::OpenParen) {
            Err(e) => Err(e),
            Ok(p1) => match self.function_expression_args(p1) {
                Err(e) => Err(e),
                Ok((args, p2)) => match self.eat(p2, TokenType::CloseParen) {
                    Err(e) => Err(e),
                    Ok(p3) => Ok((args, p3)),
                },
            },
        }
    }

    /// The names of the parameters of a function, up to the closing
    /// parenthesis.
    pub open spec fn function_expression_args(self, pos: int) -> Parsed<Seq<Seq<char>>> {
        if self.at(pos) is CloseParen {
            Ok((Seq::empty(), pos))
        } else {
            self.names(pos)
        }
    }

    /// One name at least, with a comma between two, up to the closing
    /// parenthesis.
    pub open spec fn names(self, pos: int) -> Parsed<Seq<Seq<char>>>
        decreases self.left(pos),
    {
        match self.eat_identifier(pos) {
            Err(e) => Err(e),
            Ok((name, p1)) => if self.at(p1) is CloseParen {
                Ok((seq![name], p1))
            } else {
                match self.eat(p1, TokenType::Comma) {
                    Err(e) => Err(e),
                    Ok(p2) => match self.names(forward(pos, p2)) {
                        Err(e) => Err(e),
                        Ok((rest, p3)) => Ok((seq![name] + rest, p3)),
                    },
                }
            },
        }
    }

    /// What an expression starts with: an expression in parentheses, a
    /// negation, what an identifier starts, a list, or a literal.
    pub open spec fn prefix(self, pos: int) -> Parsed<Node>
        decreases self.left(pos), 6nat,
    {
        match self.at(pos) {
            TokenType::OpenParen => self.parenthesized_expression(pos),
            TokenType::Minus => self.unary_expression(pos),
            TokenType::Identifier(ident) => self.parse_identifier(ident, pos),
            TokenType::OpenSqBracket => self.list_literal(pos),
            _ => self.eat_literal(pos),
        }
    }

    /// `"[" (Expression ("," Expression)*)? "]"`
    pub open spec fn list_literal(self, pos: int) -> Parsed<Node>
        decreases self.left(pos), 5nat,
    {
        if !(self.at(pos) is OpenSqBracket) {
            Err(self.at(pos))
        } else if self.at(self.next(pos)) is CloseSqBracket {
            Ok((Node::List(Seq::empty()), self.next(self.next(pos))))
        } else {
            match self.expressions(self.next(pos), TokenType::CloseSqBracket) {
                Err(e) => Err(e),
                Ok((items, p1)) => match self.eat(p1, TokenType::CloseSqBracket) {
                    Err(e) => Err(e),
                    Ok(p2) => Ok((Node::List(items), p2)),
                },
            }
        }
    }

    /// One expression at least, with a comma between two, up to the closing
    /// token, which is left.
    pub open spec fn expressions(self, pos: int, close: TokenType<Seq<char>>) -> Parsed<Seq<Node>>
        decreases self.left(pos), 12nat,
    {
        if self.at(pos) is EOF {
            Err(self.at(pos))
        } else {
            match self.expression(pos, 0) {
                Err(e) => Err(e),
                Ok((node, p1)) => if self.at(p1) == close {
                    Ok((seq![node], p1))
                } else {
                    match self.eat(p1, TokenType::Comma) {
                        Err(e) => Err(e),
                        Ok(p2) => match self.expressions(forward(pos, p2), close) {
                            Err(e) => Err(e),
                            Ok((rest, p3)) => Ok((seq![node] + rest, p3)),
                        },
                    }
                },
            }
        }
    }

    /// What an identifier starts. A parenthesis behind it makes a call; a
    /// bracket or a dot a chain of members, indexes and calls. Else `return`,
    /// `true`, `false` and `none` are what they say; the name of a command
    /// starts a command; any other name is a variable, which is assigned to
    /// where `=` follows.
    pub open spec fn parse_identifier(self, ident: Seq<char>, pos: int) -> Parsed<Node>
        decreases self.left(pos), 5nat,
    {
        if !(self.at(pos) is Identifier) {
            Err(self.at(pos))
        } else if self.at(self.next(pos)) is OpenParen {
            self.call_expression(Node::Identifier(ident), self.next(pos))
        } else if self.at(self.next(pos)) is OpenSqBracket || self.at(self.next(pos)) is Dot {
            self.member_expression(Node::Identifier(ident), self.next(pos))
        } else if ident == "return"@ {
            self.return_expression(pos)
        } else if ident == "true"@ {
            Ok((Node::Boolean(true), self.next(pos)))
        } else if ident == "false"@ {
            Ok((Node::Boolean(false), self.next(pos)))
        } else if ident == "none"@ {
            Ok((Node::Nothing, self.next(pos)))
        } else if self.is_command(ident) {
            let (parts, p1) = self.command_parts(self.next_cmd(pos), self.at(pos));
            Ok((Node::Command(seq![Node::String(ident)] + parts), p1))
        } else if self.at(self.next(pos)) is Equals {
            self.variable_statement(Node::Identifier(ident), self.next(pos))
        } else {
            Ok((Node::Identifier(ident), self.next(pos)))
        }
    }

    /// A chain of members, indexes and calls behind a base, and the
    /// assignment to it where `=` follows.
    pub open spec fn member_expression(self, base: Node, pos: int) -> Parsed<Node>
        decreases self.left(pos), 4nat,
    {
        if self.at(pos) is EOF {
            Err(self.at(pos))
        } else {
            match self.member_chain(base, pos) {
                Err(e) => Err(e),
                Ok((node, p1)) => if self.at(p1) is Equals {
                    self.variable_statement(node, forward(pos, p1))
                } else {
                    Ok((node, p1))
                },
            }
        }
    }

    /// As many members, indexes and calls as follow a base.
    pub open spec fn member_chain(self, base: Node, pos: int) -> Parsed<Node>
        decreases self.left(pos), 3nat,
    {
        if self.at(pos) is Dot || self.at(pos) is OpenSqBracket || self.at(pos) is OpenParen {
            match self.member_prefix_expression(base, pos) {
                Err(e) => Err(e),
                Ok((node, p1)) => self.member_chain(node, forward(pos, p1)),
            }
        } else {
            Ok((base, pos))
        }
    }

    /// `"." Ident`, `"[" Expression "]"` or a call, behind a base.
    pub open spec fn member_prefix_expression(self, base: Node, pos: int) -> Parsed<Node>
        decreases self.left(pos), 2nat,
    {
        match self.at(pos) {
            TokenType::Dot => match self.eat_identifier(self.next(pos)) {
                Err(e) => Err(e),
                Ok((property, p1)) => Ok((Node::Member { base: Box::new(base), property }, p1)),
            },
            TokenType::OpenSqBracket => match self.expression(self.next(pos), 0) {
                Err(e) => Err(e),
                Ok((index, p1)) => match self.eat(p1, TokenType::CloseSqBracket) {
                    Err(e) => Err(e),
                    Ok(p2) => Ok(
                        (Node::Index { base: Box::new(base), index: Box::new(index) }, p2),
                    ),
                },
            },
            TokenType::OpenParen => self.call_expression(base, pos),
            _ => Err(self.at(pos)),
        }
    }

    /// The fragments of a command from a position on, up to the end of the
    /// line; a newline behind a backslash does not end it. A name behind `$`
    /// is a variable, a template string and a decimal number are themselves,
    /// and every other token is the text of its display form.
    pub open spec fn command_parts(self, pos: int, prev: TokenType<Seq<char>>) -> (Seq<Node>, int)
        decreases self.left(pos),
    {
        let token = self.at(pos);
        if ends_line(token) && !(prev is BackSlash) {
            (Seq::empty(), pos)
        } else if token is EOF {
            (seq![fragment(token)], pos)
        } else {
            let (rest, end) = self.command_parts(pos + 1, token);
            (seq![fragment(token)] + rest, end)
        }
    }

    /// `"(" Expression ")"`
    pub open spec fn parenthesized_expression(self, pos: int) -> Parsed<Node>
        decreases self.left(pos), 5nat,
    {
        if !(self.at(pos) is OpenParen) {
            Err(self.at(pos))
        } else {
            match self.expression(self.next(pos), 0) {
                Err(e) => Err(e),
                Ok((node, p1)) => match self.eat(p1, TokenType::CloseParen) {
                    Err(e) => Err(e),
                    Ok(p2) => Ok((node, p2)),
                },
            }
        }
    }

    /// `"return" Expression`
    pub open spec fn return_expression(self, pos: int) -> Parsed<Node>
        decreases self.left(pos), 4nat,
    {
        if !is_word(self.at(pos), "return"@) {
            Err(self.at(pos))
        } else {
            match self.expression(self.next(pos), 0) {
                Err(e) => Err(e),
                Ok((node, p1)) => Ok((Node::Return(Box::new(node)), p1)),
            }
        }
    }

    /// `"(" (Expression ("," Expression)*)? ")"` behind a base, and the chain
    /// that a dot behind it starts.
    pub open spec fn call_expression(self, base: Node, pos: int) -> Parsed<Node>
        decreases self.left(pos), 1nat,
    {
        if !(self.at(pos) is OpenParen) {
            Err(self.at(pos))
        } else {
            match self.call_expression_args(self.next(pos)) {
                Err(e) => Err(e),
                Ok((args, p1)) => match self.eat(p1, TokenType::CloseParen) {
                    Err(e) => Err(e),
                    Ok(p2) => {
                        let call = Node::Call { base: Box::new(base), args };
                        if self.at(p2) is Dot {
                            self.member_expression(call, forward(pos, p2))
                        } else {
                            Ok((call, p2))
                        }
                    },
                },
            }
        }
    }

    /// The arguments of a call, up to the closing parenthesis.
    pub open spec fn call_expression_args(self, pos: int) -> Parsed<Seq<Node>>
        decreases self.left(pos), 13nat,
    {
        if self.at(pos) is CloseParen {
            Ok((Seq::empty(), pos))
        } else {
            self.expressions(pos, TokenType::CloseParen)
        }
    }

    /// `"-" Expression`, where the operand takes the operators that bind
    /// more strongly than negation: `^` alone.
    pub open spec fn unary_expression(self, pos: int) -> Parsed<Node>
        decreases self.left(pos), 5nat,
    {
        if !(self.at(pos) is Minus) {
            Err(self.at(pos))
        } else {
            match self.expression(self.next(pos), 4) {
                Err(e) => Err(e),
                Ok((node, p1)) => Ok((Node::Unary(Box::new(node)), p1)),
            }
        }
    }

    /// A literal: a number, a string or a template string. An integer with
    /// a dot behind it starts a range.
    pub open spec fn eat_literal(self, pos: int) -> Parsed<Node>
        decreases self.left(pos), 5nat,
    {
        match self.at(pos) {
            TokenType::Decimal(text) => Ok((Node::Decimal(text), self.next(pos))),
            TokenType::Integer(n) => if self.at(self.next(pos)) is Dot {
                self.range_expression(Node::Integer(n), self.next(pos))
            } else {
                Ok((Node::Integer(n), self.next(pos)))
            },
            TokenType::String(text) => Ok((Node::String(text), self.next(pos))),
            TokenType::TemplateString(text) => Ok(
                (Node::Template(template_parts(text, 0)), self.next(pos)),
            ),
            _ => Err(self.at(pos)),
        }
    }
}

/// The fragment of a command that a token makes.
pub open spec fn fragment(token: TokenType<Seq<char>>) -> Node {
    match token {
        TokenType::EscapedIdentifier(name) => Node::Identifier(name),
        TokenType::TemplateString(text) => Node::Template(template_parts(text, 0)),
        TokenType::Decimal(text) => Node::Decimal(text),
        _ => Node::String(display_text(token)),
    }
}

/// The tokens of a source text from a position on, whitespace among them
/// and comments left out, up to the end of input, which is the last token.
pub open spec fn tokens_from(src: Seq<u8>, at: int) -> Result<Seq<TokenType<Seq<char>>>, ErrorKind>
    decreases src.len() - at,
{
    match crate::lexer::lexer::next_at(src, at) {
        Err(e) => Err(e),
        Ok((token, to)) => if token is EOF || to <= at || to > src.len() {
            Ok(seq![TokenType::EOF])
        } else {
            match tokens_from(src, to) {
                Err(e) => Err(e),
                Ok(rest) => Ok(seq![token] + rest),
            }
        },
    }
}

/// The program that a source text is parsed to, where the given names are
/// taken as commands: the first lexical error, or what the grammar makes of
/// the tokens.
pub open spec fn parse_text(src: Seq<u8>, commands: Seq<Seq<char>>) -> Result<Node, Failure> {
    match tokens_from(src, 0) {
        Err(_) => Err(Failure::Lexical),
        Ok(tokens) => match (Source { tokens, commands }).program() {
            Ok(node) => Ok(node),
            Err(token) => Err(Failure::Unexpected(token)),
        },
    }
}

/// Reading a token fails with a lexical error, and with no other.
pub proof fn lemma_next_at_fails_lexically(src: Seq<u8>, at: int)
    ensures
        match crate::lexer::lexer::next_at(src, at) {
            Err(kind) => kind == ErrorKind::Lexical,
            Ok(_) => true,
        },
    decreases src.len() - at,
{
    match crate::lexer::lexer::token_at(src, at) {
        Err(_) => {},
        Ok((token, n)) => {
            if token is LineComment && 0 < n <= src.len() - at {
                lemma_next_at_fails_lexically(src, at + n);
            }
        },
    }
}

/// Reading the tokens of a source text fails with a lexical error, and with
/// no other.
pub proof fn lemma_tokens_fail_lexically(src: Seq<u8>, at: int)
    ensures
        match tokens_from(src, at) {
            Err(kind) => kind == ErrorKind::Lexical,
            Ok(_) => true,
        },
    decreases src.len() - at,
{
    lemma_next_at_fails_lexically(src, at);
    match crate::lexer::lexer::next_at(src, at) {
        Err(_) => {},
        Ok((token, to)) => {
            if !(token is EOF || to <= at || to > src.len()) {
                lemma_tokens_fail_lexically(src, to);
            }
        },
    }
}

/// The tokens of a source text end with the end of input and hold it
/// nowhere else.
pub proof fn lemma_tokens_from(src: Seq<u8>, at: int)
    requires
        0 <= at <= src.len(),
    ensures
        match tokens_from(src, at) {
            Ok(tokens) => (Source { tokens, commands: Seq::empty() }).wf(),
            Err(_) => true,
        },
    decreases src.len() - at,
{
    crate::lexer::lexer::Lexer::lemma_next_at_advances(src, at);
    match crate::lexer::lexer::next_at(src, at) {
        Err(e) => {},
        Ok((token, to)) => {
            if token is EOF || to <= at || to > src.len() {
            } else {
                lemma_tokens_from(src, to);
                match tokens_from(src, to) {
                    Err(e) => {},
                    Ok(rest) => {
                        let all = seq![token] + rest;
                        assert(all.last() == rest.last());
                        assert forall|i: int| 0 <= i < all.len() - 1 implies !(#[trigger] all[i]
                            is EOF) by {
                            if i > 0 {
                                assert(all[i] == rest[i - 1]);
                            }
                        }
                    },
                }
            }
        },
    }
}

impl Source {
    /// Skipping whitespace stays within the tokens and ends at a token that
    /// is no whitespace.
    pub proof fn lemma_skip_blank(self, pos: int)
        requires
            self.wf(),
            0 <= pos < self.tokens.len(),
        ensures
            pos <= self.skip_blank(pos) < self.tokens.len(),
            !(self.at(self.skip_blank(pos)) is Whitespace),
        decreases self.left(pos),
    {
        if self.tokens[pos] is Whitespace {
            assert(pos < self.tokens.len() - 1);
            self.lemma_skip_blank(pos + 1);
        }
    }

    /// The next token lies behind every token but the end of input, and
    /// within the tokens.
    pub proof fn lemma_next(self, pos: int)
        requires
            self.wf(),
            0 <= pos < self.tokens.len(),
        ensures
            pos <= self.next(pos) < self.tokens.len(),
            !(self.at(pos) is EOF) ==> pos < self.next(pos) && self.next(pos) == self.skip_blank(
                pos + 1,
            ),
            pos <= self.next_cmd(pos) < self.tokens.len(),
    {
        if !(self.at(pos) is EOF) {
            assert(pos < self.tokens.len() - 1);
            self.lemma_skip_blank(pos + 1);
        }
    }
}

} // verus!
