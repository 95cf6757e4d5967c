pub mod grammar;
pub mod laws;

use vstd::prelude::*;
use vstd::string::*;
use crate::ast::ast::{
    lemma_range_node,
    node_view,
    option_view,
    range_view,
    template_view,
    texts,
    view_all,
    ASTNode,
    BinaryExpression,
    BlockStatement,
    CallExpression,
    ForStatement,
    FunctionStatement,
    FunctionView,
    IfStatement,
    IndexExpression,
    Iterable,
    MemberExpression,
    Node,
    NumberLiteral,
    RangeExpression,
    TemplateString,
    TemplateToken,
    VariableExpression,
};
use crate::common::utils::same_text;
use crate::error::{Error, ErrorKind};
use crate::lexer::lexer::{next_at, Lexer};
use crate::lexer::token::{display_text, ends_line, TokenType};
use crate::parser::grammar::{
    ends_name,
    forward,
    fragment,
    is_word,
    lemma_tokens_fail_lexically,
    lemma_tokens_from,
    literal_end,
    name_end,
    parse_text,
    precedence_of,
    right_precedence,
    template_parts,
    tokens_from,
    unexpected_text,
    Failure,
    Parsed,
    Source,
};

verus! {

/// The models of a run of tokens.
pub open spec fn tokens_view(tokens: Seq<TokenType>) -> Seq<TokenType<Seq<char>>> {
    Seq::new(tokens.len(), |i: int| tokens[i]@)
}

/// Whether an error reports that a token was not expected: it is a parse
/// error, and its message says so of the token.
pub open spec fn reports(e: Error, token: TokenType<Seq<char>>) -> bool {
    e@ == ErrorKind::Parse && e.message@ == unexpected_text(token)
}

/// Whether a node and the position behind it are what the grammar gives.
pub open spec fn node_read(expected: Parsed<Node>, r: Result<ASTNode, Error>, end: int) -> bool {
    match expected {
        Ok((node, p)) => r is Ok && r->Ok_0@ == node && end == p,
        Err(token) => r is Err && reports(r->Err_0, token),
    }
}

/// Whether a run of nodes and the position behind it are what the grammar
/// gives.
pub open spec fn nodes_read(
    expected: Parsed<Seq<Node>>,
    r: Result<Vec<ASTNode>, Error>,
    end: int,
) -> bool {
    match expected {
        Ok((nodes, p)) => r is Ok && view_all(r->Ok_0@) == nodes && end == p,
        Err(token) => r is Err && reports(r->Err_0, token),
    }
}

/// Whether a run of names and the position behind it are what the grammar
/// gives.
pub open spec fn names_read(
    expected: Parsed<Seq<Seq<char>>>,
    r: Result<Vec<String>, Error>,
    end: int,
) -> bool {
    match expected {
        Ok((names, p)) => r is Ok && texts(r->Ok_0@) == names && end == p,
        Err(token) => r is Err && reports(r->Err_0, token),
    }
}

/// A run of nodes put before the nodes that the grammar still gives.
pub open spec fn after(done: Seq<Node>, rest: Parsed<Seq<Node>>) -> Parsed<Seq<Node>> {
    match rest {
        Ok((nodes, p)) => Ok((done + nodes, p)),
        Err(kind) => Err(kind),
    }
}

/// A run of names put before the names that the grammar still gives.
pub open spec fn names_after(done: Seq<Seq<char>>, rest: Parsed<Seq<Seq<char>>>) -> Parsed<
    Seq<Seq<char>>,
> {
    match rest {
        Ok((names, p)) => Ok((done + names, p)),
        Err(kind) => Err(kind),
    }
}

/// How strongly an operator binds; 0 for what is no operator.
pub fn get_precedence(operator: &TokenType) -> (r: usize)
    ensures
        r == precedence_of(operator@),
{
    match operator {
        TokenType::Carat => 5,
        TokenType::Asterisk => 3,
        TokenType::ForwardSlash => 3,
        TokenType::Plus => 2,
        TokenType::Minus => 2,
        TokenType::DoubleEquals => 1,
        TokenType::NotEquals => 1,
        TokenType::GreaterThan => 1,
        TokenType::LessThan => 1,
        TokenType::Ge => 1,
        TokenType::Le => 1,
        TokenType::And => 1,
        TokenType::Or => 1,
        _ => 0,
    }
}

/// Whether a token is an identifier with the given text.
fn token_is_word(token: &TokenType, word: &str) -> (r: bool)
    ensures
        r == is_word(token@, word@),
{
    match token {
        TokenType::Identifier(name) => same_text(name.as_str(), word),
        _ => false,
    }
}

/// The parts of a template string.
pub fn read_template_string(value: &str) -> (r: ASTNode)
    ensures
        r@ == Node::Template(template_parts(value@, 0)),
{
    let n = value.unicode_len();
    let mut tokens: Vec<TemplateToken> = Vec::new();
    let mut tail: usize = 0;
    proof {
        assert(template_view(tokens@) + template_parts(value@, 0) =~= template_parts(value@, 0));
    }
    while tail < n
        invariant
            tail <= n,
            n == value@.len(),
            template_parts(value@, 0) == template_view(tokens@) + template_parts(
                value@,
                tail as int,
            ),
        decreases n - tail,
    {
        let ghost done = template_view(tokens@);
        if value.get_char(tail) == '$' {
            let head = tail + 1;
            let mut end = head;
            while end < n && !is_name_end(value.get_char(end))
                invariant
                    head <= end <= n,
                    n == value@.len(),
                    name_end(value@, head as int) == name_end(value@, end as int),
                decreases n - end,
            {
                end = end + 1;
            }
            if end == head {
                tokens.push(TemplateToken::Literal(String::from_str("$")));
                proof {
                    assert(template_view(tokens@) =~= done.push(TemplateToken::Literal("$"@)));
                    assert(template_view(tokens@) + template_parts(value@, head as int)
                        =~= done + template_parts(value@, tail as int));
                }
                tail = head;
            } else {
                let name = String::from_str(value.substring_char(head, end));
                tokens.push(TemplateToken::Expression(name));
                proof {
                    assert(template_view(tokens@) =~= done.push(
                        TemplateToken::Expression(value@.subrange(head as int, end as int)),
                    ));
                    assert(template_view(tokens@) + template_parts(value@, end as int) =~= done
                        + template_parts(value@, tail as int));
                }
                tail = end;
            }
        } else {
            let head = tail;
            let mut end = head + 1;
            while end < n && value.get_char(end) != '$'
                invariant
                    head < end <= n,
                    n == value@.len(),
                    literal_end(value@, head as int) == literal_end(value@, end as int),
                decreases n - end,
            {
                end = end + 1;
            }
            let text = String::from_str(value.substring_char(head, end));
            tokens.push(TemplateToken::Literal(text));
            proof {
                assert(template_view(tokens@) =~= done.push(
                    TemplateToken::Literal(value@.subrange(head as int, end as int)),
                ));
                assert(template_view(tokens@) + template_parts(value@, end as int) =~= done
                    + template_parts(value@, tail as int));
            }
            tail = end;
        }
    }
    proof {
        assert(template_view(tokens@) + template_parts(value@, tail as int) =~= template_view(
            tokens@,
        ));
    }
    ASTNode::TemplateString(TemplateString { tokens })
}

/// Whether a character ends the name of a `$name` run.
fn is_name_end(c: char) -> (r: bool)
    ensures
        r == ends_name(c),
{
    c == ' ' || c == '\t' || c == '\r' || c == '\n'
}

/// The fragment of a command that a token makes.
fn make_fragment(token: &TokenType) -> (r: ASTNode)
    ensures
        r@ == fragment(token@),
{
    match token {
        TokenType::EscapedIdentifier(name) => ASTNode::Identifier(name.clone()),
        TokenType::TemplateString(text) => read_template_string(text.as_str()),
        TokenType::Decimal(text) => ASTNode::Number(NumberLiteral::Decimal(text.clone())),
        _ => ASTNode::String(token.to_string()),
    }
}

/// Parses a source text, in which the given names are taken as commands.
pub fn parse_source(src: &str, commands: Vec<String>) -> (r: Result<ASTNode, Error>)
    ensures
        match parse_text(src.spec_bytes(), texts(commands@)) {
            Ok(node) => r is Ok && r->Ok_0@ == node,
            Err(Failure::Lexical) => r is Err && r->Err_0@ == ErrorKind::Lexical,
            Err(Failure::Unexpected(token)) => r is Err && reports(r->Err_0, token),
        },
{
    let mut parser = Parser::new(src, commands);
    proof {
        lemma_tokens_fail_lexically(src.spec_bytes(), 0);
    }
    parser.parse()
}

/// A parser by operator precedence over the tokens of a source text. It
/// reads the tokens when it is made; a name of the given registry that stands
/// where an expression starts is taken as a command, and the rest of its line
/// with it.
pub struct Parser {
    tokens: Vec<TokenType>,
    position: usize,
    commands: Vec<String>,
    failure: Option<Error>,
}

impl Parser {
    /// The tokens that are parsed, and the names that are taken as commands.
    pub closed spec fn source(&self) -> Source {
        Source { tokens: tokens_view(self.tokens@), commands: texts(self.commands@) }
    }

    /// The position of the current token.
    pub closed spec fn pos(&self) -> int {
        self.position as int
    }

    /// The lexical error that reading the tokens ended in, if it did.
    pub closed spec fn failure(&self) -> Option<ErrorKind> {
        match self.failure {
            Some(e) => Some(e@),
            None => None,
        }
    }

    /// The tokens end with the end of input, and the position is one of
    /// them.
    pub closed spec fn wf(&self) -> bool {
        self.source().wf() && self.position < self.tokens.len()
    }

    /// How many tokens are left.
    pub closed spec fn left(&self) -> nat {
        self.source().left(self.pos())
    }

    /// A parser of the given text. Where the text holds a lexical error, the
    /// parser keeps it, and parsing fails with it.
    pub fn new(src: &str, commands: Vec<String>) -> (p: Parser)
        ensures
            p.wf(),
            p.source().commands == texts(commands@),
            match tokens_from(src.spec_bytes(), 0) {
                Ok(tokens) => p.source().tokens == tokens && p.failure() is None,
                Err(kind) => p.failure() == Some(kind),
            },
            p.pos() == p.source().skip_blank(0),
    {
        let mut lexer = Lexer::new(src);
        let mut tokens: Vec<TokenType> = Vec::new();
        let ghost bytes = src.spec_bytes();
        proof {
            assert(tokens_view(tokens@) =~= Seq::empty());
        }
        loop
            invariant
                bytes == src.spec_bytes(),
                lexer.source() == bytes,
                0 <= lexer.position() <= bytes.len(),
                forall|i: int| 0 <= i < tokens.len() ==> !(#[trigger] tokens[i]@ is EOF),
                match tokens_from(bytes, lexer.position()) {
                    Ok(rest) => tokens_from(bytes, 0) == Ok::<
                        Seq<TokenType<Seq<char>>>,
                        ErrorKind,
                    >(tokens_view(tokens@) + rest),
                    Err(kind) => tokens_from(bytes, 0) == Err::<
                        Seq<TokenType<Seq<char>>>,
                        ErrorKind,
                    >(kind),
                },
            decreases bytes.len() - lexer.position(),
        {
            let ghost at = lexer.position();
            let ghost done = tokens_view(tokens@);
            proof {
                Lexer::lemma_next_at_advances(bytes, at);
            }
            match lexer.next_cmd_token() {
                Err(e) => {
                    return Self::over(tokens, commands, Some(e));
                },
                Ok(token) => {
                    if matches!(token, TokenType::EOF) {
                        proof {
                            assert(tokens_from(bytes, at) == Ok::<
                                Seq<TokenType<Seq<char>>>,
                                ErrorKind,
                            >(seq![TokenType::EOF]));
                            assert(done.push(TokenType::EOF) =~= done + seq![TokenType::EOF]);
                        }
                        return Self::over(tokens, commands, None);
                    }
                    let ghost view = token@;
                    tokens.push(token);
                    proof {
                        assert(tokens_view(tokens@) =~= done.push(view));
                        match tokens_from(bytes, lexer.position()) {
                            Ok(rest) => {
                                assert(tokens_view(tokens@) + rest =~= done + (seq![view] + rest));
                            },
                            Err(_) => {},
                        }
                    }
                },
            }
        }
    }

    /// The parser of the tokens that were read, with the end of input put
    /// behind them, at the first token that is no whitespace.
    fn over(tokens: Vec<TokenType>, commands: Vec<String>, failure: Option<Error>) -> (p: Parser)
        requires
            forall|i: int| 0 <= i < tokens.len() ==> !(#[trigger] tokens[i]@ is EOF),
        ensures
            p.wf(),
            p.source().tokens == tokens_view(tokens@).push(TokenType::EOF),
            p.source().commands == texts(commands@),
            p.failure() == match failure {
                Some(e) => Some(e@),
                None => None,
            },
            p.pos() == p.source().skip_blank(0),
    {
        let ghost read = tokens_view(tokens@);
        let mut tokens = tokens;
        tokens.push(TokenType::EOF);
        proof {
            assert(tokens_view(tokens@) =~= read.push(TokenType::EOF));
        }
        let ghost src = Source { tokens: tokens_view(tokens@), commands: texts(commands@) };
        let mut position: usize = 0;
        while position < tokens.len() - 1 && matches!(tokens[position], TokenType::Whitespace)
            invariant
                position < tokens.len(),
                src == (Source { tokens: tokens_view(tokens@), commands: texts(commands@) }),
                src.skip_blank(0) == src.skip_blank(position as int),
            decreases tokens.len() - position,
        {
            position = position + 1;
        }
        Parser { tokens, position, commands, failure }
    }

    /// The current token.
    fn current(&self) -> (r: &TokenType)
        requires
            self.wf(),
        ensures
            r@ == self.source().at(self.pos()),
    {
        &self.tokens[self.position]
    }

    /// The token behind the current one that is no whitespace.
    fn lookahead(&self) -> (r: &TokenType)
        requires
            self.wf(),
        ensures
            r@ == self.source().at(self.source().next(self.pos())),
    {
        proof {
            self.source().lemma_next(self.pos());
        }
        if matches!(self.tokens[self.position], TokenType::EOF) {
            return &self.tokens[self.position];
        }
        let mut p: usize = self.position + 1;
        while matches!(self.tokens[p], TokenType::Whitespace)
            invariant
                self.wf(),
                self.position < p < self.tokens.len(),
                self.source().skip_blank(self.position + 1) == self.source().skip_blank(p as int),
            decreases self.tokens.len() - p,
        {
            proof {
                self.source().lemma_skip_blank(p as int);
            }
            p = p + 1;
        }
        &self.tokens[p]
    }

    /// Moves to the next token that is no whitespace.
    fn advance_token(&mut self)
        requires
            old(self).wf(),
        ensures
            final(self).wf(),
            final(self).source() == old(self).source(),
            final(self).failure() == old(self).failure(),
            final(self).pos() == old(self).source().next(old(self).pos()),
            final(self).pos() >= old(self).pos(),
            !(old(self).source().at(old(self).pos()) is EOF) ==> final(self).pos() > old(self).pos(),
    {
        proof {
            self.source().lemma_next(self.pos());
        }
        if matches!(self.tokens[self.position], TokenType::EOF) {
            return ;
        }
        let mut p: usize = self.position + 1;
        while matches!(self.tokens[p], TokenType::Whitespace)
            invariant
                self.wf(),
                self.position < p < self.tokens.len(),
                self.source().skip_blank(self.position + 1) == self.source().skip_blank(p as int),
            decreases self.tokens.len() - p,
        {
            proof {
                self.source().lemma_skip_blank(p as int);
            }
            p = p + 1;
        }
        self.position = p;
    }

    /// Moves to the next token, whitespace included.
    fn advance_cmd_token(&mut self)
        requires
            old(self).wf(),
        ensures
            final(self).wf(),
            final(self).source() == old(self).source(),
            final(self).failure() == old(self).failure(),
            final(self).pos() == old(self).source().next_cmd(old(self).pos()),
    {
        proof {
            self.source().lemma_next(self.pos());
        }
        if !matches!(self.tokens[self.position], TokenType::EOF) {
            self.position = self.position + 1;
        }
    }

    /// The failure that the current token is not what is expected.
    fn unexpected(&self) -> (e: Error)
        requires
            self.wf(),
        ensures
            reports(e, self.source().at(self.pos())),
    {
        let token = self.current();
        if matches!(token, TokenType::EOF) {
            Error::new(ErrorKind::Parse, "EOF")
        } else {
            Error::with_detail(ErrorKind::Parse, "unexpected token ", token.to_string().as_str())
        }
    }

    /// Takes the current token, which has to be the expected one.
    fn eat(&mut self, expected_token: &TokenType) -> (r: Result<(), Error>)
        requires
            old(self).wf(),
        ensures
            final(self).wf(),
            final(self).source() == old(self).source(),
            final(self).failure() == old(self).failure(),
            match old(self).source().eat(old(self).pos(), expected_token@) {
                Ok(p) => r is Ok && final(self).pos() == p && p > old(self).pos(),
                Err(token) => r is Err && reports(r->Err_0, token) && final(self).pos() == old(self).pos(),
            },
    {
        if matches!(self.current(), TokenType::EOF) || !expected_token.same(self.current()) {
            return Err(self.unexpected());
        }
        self.advance_token();
        Ok(())
    }

    /// Takes the current token, which has to be the identifier of the given
    /// text.
    fn eat_word(&mut self, word: &str) -> (r: Result<(), Error>)
        requires
            old(self).wf(),
        ensures
            final(self).wf(),
            final(self).source() == old(self).source(),
            final(self).failure() == old(self).failure(),
            match old(self).source().eat(old(self).pos(), TokenType::Identifier(word@)) {
                Ok(p) => r is Ok && final(self).pos() == p && p > old(self).pos(),
                Err(token) => r is Err && reports(r->Err_0, token) && final(self).pos() == old(self).pos(),
            },
    {
        if !token_is_word(self.current(), word) {
            return Err(self.unexpected());
        }
        self.advance_token();
        Ok(())
    }

    /// Takes the current token, which has to be an identifier, escaped or
    /// not, and returns its name.
    fn eat_identifier(&mut self) -> (r: Result<String, Error>)
        requires
            old(self).wf(),
        ensures
            final(self).wf(),
            final(self).source() == old(self).source(),
            final(self).failure() == old(self).failure(),
            match old(self).source().eat_identifier(old(self).pos()) {
                Ok((name, p)) => r is Ok && r->Ok_0@ == name && final(self).pos() == p && p > old(
                    self,
                ).pos(),
                Err(token) => r is Err && reports(r->Err_0, token) && final(self).pos() == old(self).pos(),
            },
    {
        let name = match self.current() {
            TokenType::Identifier(ident) => ident.clone(),
            TokenType::EscapedIdentifier(ident) => ident.clone(),
            _ => return Err(self.unexpected()),
        };
        self.advance_token();
        Ok(name)
    }

    /// Whether a name is taken as a command.
    fn is_command(&self, name: &str) -> (r: bool)
        ensures
            r == self.source().is_command(name@),
    {
        let mut i: usize = 0;
        while i < self.commands.len()
            invariant
                i <= self.commands.len(),
                forall|k: int| 0 <= k < i ==> texts(self.commands@)[k] != name@,
            decreases self.commands.len() - i,
        {
            if same_text(self.commands[i].as_str(), name) {
                proof {
                    assert(texts(self.commands@)[i as int] == name@);
                }
                return true;
            }
            i = i + 1;
        }
        false
    }

    /// Goes back to the first token that is no whitespace.
    fn rewind(&mut self)
        requires
            old(self).wf(),
        ensures
            final(self).wf(),
            final(self).source() == old(self).source(),
            final(self).failure() == old(self).failure(),
            final(self).pos() == final(self).source().skip_blank(0),
    {
        let mut position: usize = 0;
        while position < self.tokens.len() - 1 && matches!(
            self.tokens[position],
            TokenType::Whitespace
        )
            invariant
                self.wf(),
                position < self.tokens.len(),
                self.source().skip_blank(0) == self.source().skip_blank(position as int),
            decreases self.tokens.len() - position,
        {
            position = position + 1;
        }
        self.position = position;
    }

    /// Parses the text from its start: the program it holds, or the first
    /// failure, which is the lexical error where the text holds one.
    pub fn parse(&mut self) -> (r: Result<ASTNode, Error>)
        requires
            old(self).wf(),
        ensures
            final(self).wf(),
            final(self).source() == old(self).source(),
            final(self).failure() == old(self).failure(),
            match old(self).failure() {
                Some(kind) => r is Err && r->Err_0@ == kind,
                None => match old(self).source().program() {
                    Ok(node) => r is Ok && r->Ok_0@ == node,
                    Err(token) => r is Err && reports(r->Err_0, token),
                },
            },
    {
        match &self.failure {
            Some(e) => return Err(e.clone()),
            None => {},
        }
        self.rewind();
        self.program()
    }

    /// `Program = (Newline | Statement)*`
    fn program(&mut self) -> (r: Result<ASTNode, Error>)
        requires
            old(self).wf(),
            old(self).pos() == old(self).source().skip_blank(0),
        ensures
            final(self).wf(),
            final(self).source() == old(self).source(),
            final(self).failure() == old(self).failure(),
            match old(self).source().program() {
                Ok(node) => r is Ok && r->Ok_0@ == node,
                Err(token) => r is Err && reports(r->Err_0, token),
            },
    {
        let statement_list = self.statement_list()?;
        Ok(ASTNode::Program(Box::new(statement_list)))
    }

    /// The statements up to the end of input.
    #[verifier::rlimit(40)]
    fn statement_list(&mut self) -> (r: Result<Vec<ASTNode>, Error>)
        requires
            old(self).wf(),
        ensures
            final(self).wf(),
            final(self).source() == old(self).source(),
            final(self).failure() == old(self).failure(),
            nodes_read(old(self).source().statement_list(old(self).pos()), r, final(self).pos()),
            r is Ok ==> final(self).pos() >= old(self).pos(),
        decreases old(self).left(), 19nat,
    {
        let mut statements: Vec<ASTNode> = Vec::new();
        let ghost src = self.source();
        let ghost start = self.pos();
        proof {
            assert(view_all(statements@) =~= Seq::empty());
            assert(after(Seq::empty(), src.statement_list(start)) == src.statement_list(start));
        }
        loop
            invariant
                self.wf(),
                self.source() == src,
                self.failure() == old(self).failure(),
                start == old(self).pos(),
                src == old(self).source(),
                self.pos() >= start,
                src.statement_list(start) == after(
                    view_all(statements@),
                    src.statement_list(self.pos()),
                ),
            decreases self.left(),
        {
            let ghost done = view_all(statements@);
            let ghost pos = self.pos();
            if matches!(self.current(), TokenType::EOF) {
                proof {
                    assert(done + Seq::<Node>::empty() =~= done);
                }
                return Ok(statements);
            }
            if matches!(self.current(), TokenType::Newline) {
                self.advance_token();
                continue ;
            }
            let node = match self.statement_line(true) {
                Ok(node) => node,
                Err(e) => {
                    proof {
                        assert(src.statement_list(pos) is Err);
                        assert(src.statement_list(pos)->Err_0 == src.statement_line(
                            pos,
                            true,
                        )->Err_0);
                    }
                    return Err(e);
                },
            };
            let ghost made = node@;
            statements.push(node);
            proof {
                assert(view_all(statements@) =~= done.push(made));
                assert(src.statement_line(pos, true) == Ok::<(Node, int), TokenType<Seq<char>>>(
                    (made, self.pos()),
                ));
                assert(forward(pos, self.pos()) == self.pos());
                match src.statement_list(self.pos()) {
                    Ok((rest, p)) => {
                        assert(src.statement_list(pos) == Ok::<
                            (Seq<Node>, int),
                            TokenType<Seq<char>>,
                        >((seq![made] + rest, p)));
                        assert(view_all(statements@) + rest =~= done + (seq![made] + rest));
                    },
                    Err(token) => {
                        assert(src.statement_list(pos) == Err::<
                            (Seq<Node>, int),
                            TokenType<Seq<char>>,
                        >(token));
                    },
                }
            }
        }
    }

    /// A statement and the newline that ends its line, or the end of input
    /// where `last` is set.
    fn statement_line(&mut self, last: bool) -> (r: Result<ASTNode, Error>)
        requires
            old(self).wf(),
        ensures
            final(self).wf(),
            final(self).source() == old(self).source(),
            final(self).failure() == old(self).failure(),
            node_read(
                old(self).source().statement_line(old(self).pos(), last),
                r,
                final(self).pos(),
            ),
            r is Ok ==> final(self).pos() > old(self).pos(),
        decreases old(self).left(), 18nat, 1nat,
    {
        let node = self.statement()?;
        if last && matches!(self.current(), TokenType::EOF) {
            return Ok(node);
        }
        self.eat(&TokenType::Newline)?;
        Ok(node)
    }

    /// `Statement = "func" FuncStmt | "if" IfStmt | "for" ForStmt | Expression`
    fn statement(&mut self) -> (r: Result<ASTNode, Error>)
        requires
            old(self).wf(),
        ensures
            final(self).wf(),
            final(self).source() == old(self).source(),
            final(self).failure() == old(self).failure(),
            node_read(old(self).source().statement(old(self).pos()), r, final(self).pos()),
            r is Ok ==> final(self).pos() > old(self).pos(),
        decreases old(self).left(), 18nat, 0nat,
    {
        if token_is_word(self.current(), "func") {
            self.function_expression()
        } else if token_is_word(self.current(), "if") {
            self.if_statement()
        } else if token_is_word(self.current(), "for") {
            self.for_statement()
        } else {
            self.expression(0)
        }
    }

    /// `for Ident in Iterable Block`
    fn for_statement(&mut self) -> (r: Result<ASTNode, Error>)
        requires
            old(self).wf(),
        ensures
            final(self).wf(),
            final(self).source() == old(self).source(),
            final(self).failure() == old(self).failure(),
            node_read(old(self).source().for_statement(old(self).pos()), r, final(self).pos()),
            r is Ok ==> final(self).pos() > old(self).pos(),
        decreases old(self).left(), 17nat,
    {
        self.eat_word("for")?;
        let variable = self.eat_identifier()?;
        self.eat_word("in")?;
        let iterable = self.iterable()?;
        let body = self.block_statement()?;
        Ok(
            ASTNode::ForStatement(
                ForStatement { variable, iterable: Box::new(iterable), body: Box::new(body) },
            ),
        )
    }

    /// What a loop runs over.
    fn iterable(&mut self) -> (r: Result<Iterable, Error>)
        requires
            old(self).wf(),
        ensures
            final(self).wf(),
            final(self).source() == old(self).source(),
            final(self).failure() == old(self).failure(),
            match old(self).source().iterable(old(self).pos()) {
                Ok(((ranged, node), p)) => r is Ok && final(self).pos() == p && match r->Ok_0 {
                    Iterable::RangeExpression(range) => ranged && range_view(range) == node,
                    Iterable::Collection(e) => !ranged && e@ == node,
                },
                Err(token) => r is Err && reports(r->Err_0, token),
            },
            r is Ok ==> final(self).pos() > old(self).pos(),
        decreases old(self).left(), 11nat,
    {
        let expression = self.expression(0)?;
        let iterable = match self.current() {
            TokenType::Dot => Iterable::RangeExpression(self.range_expression(expression)?),
            _ => Iterable::Collection(expression),
        };
        Ok(iterable)
    }

    /// `start ".." end (".." increment)?`, from the first dot on.
    fn range_expression(&mut self, start: ASTNode) -> (r: Result<RangeExpression, Error>)
        requires
            old(self).wf(),
        ensures
            final(self).wf(),
            final(self).source() == old(self).source(),
            final(self).failure() == old(self).failure(),
            match old(self).source().range_expression(start@, old(self).pos()) {
                Ok((node, p)) => r is Ok && range_view(r->Ok_0) == node && final(self).pos() == p,
                Err(token) => r is Err && reports(r->Err_0, token),
            },
            r is Ok ==> final(self).pos() > old(self).pos(),
        decreases old(self).left(), 7nat,
    {
        self.eat(&TokenType::Dot)?;
        self.eat(&TokenType::Dot)?;
        let node = self.expression(0)?;
        proof {
            lemma_range_node(node);
        }
        let (end, increment) = match node {
            ASTNode::RangeExpression(re) => (re.start, Some(re.end)),
            node => (Box::new(node), None),
        };
        Ok(RangeExpression { start: Box::new(start), end, increment })
    }

    /// `if Expr Block (else (If | Block))?`
    fn if_statement(&mut self) -> (r: Result<ASTNode, Error>)
        requires
            old(self).wf(),
        ensures
            final(self).wf(),
            final(self).source() == old(self).source(),
            final(self).failure() == old(self).failure(),
            node_read(old(self).source().if_statement(old(self).pos()), r, final(self).pos()),
            r is Ok ==> final(self).pos() > old(self).pos(),
        decreases old(self).left(), 17nat,
    {
        self.eat_word("if")?;
        let condition = self.expression(0)?;
        let consequence = self.block_statement()?;
        let alternative = self.else_statement()?;
        Ok(
            ASTNode::IfStatement(
                IfStatement {
                    condition: Box::new(condition),
                    consequence: Box::new(consequence),
                    alternative,
                },
            ),
        )
    }

    /// `(else (If | Block))?`
    fn else_statement(&mut self) -> (r: Result<Option<Box<ASTNode>>, Error>)
        requires
            old(self).wf(),
        ensures
            final(self).wf(),
            final(self).source() == old(self).source(),
            final(self).failure() == old(self).failure(),
            match old(self).source().else_statement(old(self).pos()) {
                Ok((node, p)) => r is Ok && option_view(r->Ok_0) == node && final(self).pos() == p,
                Err(token) => r is Err && reports(r->Err_0, token),
            },
            r is Ok ==> final(self).pos() >= old(self).pos(),
        decreases old(self).left(), 16nat,
    {
        if !token_is_word(self.current(), "else") {
            return Ok(None);
        }
        self.advance_token();
        if token_is_word(self.current(), "if") {
            return Ok(Some(Box::new(self.if_statement()?)));
        }
        Ok(Some(Box::new(self.block_statement()?)))
    }

    /// `"{" Newline BlockBody "}"`
    fn block_statement(&mut self) -> (r: Result<ASTNode, Error>)
        requires
            old(self).wf(),
        ensures
            final(self).wf(),
            final(self).source() == old(self).source(),
            final(self).failure() == old(self).failure(),
            node_read(old(self).source().block_statement(old(self).pos()), r, final(self).pos()),
            r is Ok ==> final(self).pos() > old(self).pos(),
        decreases old(self).left(), 21nat,
    {
        self.eat(&TokenType::OpenBraces)?;
        self.eat(&TokenType::Newline)?;
        let body = self.block_body()?;
        self.eat(&TokenType::CloseBraces)?;
        Ok(ASTNode::BlockStatement(BlockStatement { body: Box::new(body) }))
    }

    /// The statements of a block, up to the closing brace.
    fn block_body(&mut self) -> (r: Result<Vec<ASTNode>, Error>)
        requires
            old(self).wf(),
        ensures
            final(self).wf(),
            final(self).source() == old(self).source(),
            final(self).failure() == old(self).failure(),
            nodes_read(old(self).source().block_body(old(self).pos()), r, final(self).pos()),
            r is Ok ==> final(self).pos() >= old(self).pos(),
        decreases old(self).left(), 19nat,
    {
        let mut statements: Vec<ASTNode> = Vec::new();
        let ghost src = self.source();
        let ghost start = self.pos();
        proof {
            assert(view_all(statements@) =~= Seq::empty());
            assert(after(Seq::empty(), src.block_body(start)) == src.block_body(start));
        }
        loop
            invariant
                self.wf(),
                self.source() == src,
                self.failure() == old(self).failure(),
                start == old(self).pos(),
                src == old(self).source(),
                self.pos() >= start,
                src.block_body(start) == after(view_all(statements@), src.block_body(self.pos())),
            decreases self.left(),
        {
            let ghost done = view_all(statements@);
            if matches!(self.current(), TokenType::CloseBraces) {
                proof {
                    assert(done + Seq::<Node>::empty() =~= done);
                }
                return Ok(statements);
            }
            if matches!(self.current(), TokenType::Newline) {
                self.advance_token();
                continue ;
            }
            if matches!(self.current(), TokenType::EOF) {
                return Err(self.unexpected());
            }
            let node = self.statement_line(false)?;
            let ghost made = node@;
            statements.push(node);
            proof {
                assert(view_all(statements@) =~= done.push(made));
                match src.block_body(self.pos()) {
                    Ok((rest, p)) => {
                        assert(view_all(statements@) + rest =~= done + (seq![made] + rest));
                    },
                    Err(_) => {},
                }
            }
        }
    }

    /// `Expression = Prefix (Infix)*`
    fn expression(&mut self, precedence: usize) -> (r: Result<ASTNode, Error>)
        requires
            old(self).wf(),
        ensures
            final(self).wf(),
            final(self).source() == old(self).source(),
            final(self).failure() == old(self).failure(),
            node_read(
                old(self).source().expression(old(self).pos(), precedence as nat),
                r,
                final(self).pos(),
            ),
            r is Ok ==> final(self).pos() > old(self).pos(),
        decreases old(self).left(), 10nat,
    {
        let ghost src = self.source();
        let ghost start = self.pos();
        let mut left = self.prefix()?;
        loop
            invariant
                self.wf(),
                self.source() == src,
                self.failure() == old(self).failure(),
                src == old(self).source(),
                start == old(self).pos(),
                self.pos() > start,
                !(src.at(start) is EOF),
                src.expression(start, precedence as nat) == src.infixes(
                    left@,
                    self.pos(),
                    precedence as nat,
                ),
            decreases self.left(),
        {
            if self.current().is_end_line() || precedence >= get_precedence(self.current()) {
                return Ok(left);
            }
            left = self.infix(left)?;
        }
    }

    /// An operator and its right operand.
    fn infix(&mut self, left: ASTNode) -> (r: Result<ASTNode, Error>)
        requires
            old(self).wf(),
        ensures
            final(self).wf(),
            final(self).source() == old(self).source(),
            final(self).failure() == old(self).failure(),
            node_read(old(self).source().infix(left@, old(self).pos()), r, final(self).pos()),
            r is Ok ==> final(self).pos() > old(self).pos(),
        decreases old(self).left(), 8nat,
    {
        let operator = self.current().clone();
        let operator_precedence = get_precedence(&operator);
        if operator_precedence == 0 {
            return Err(self.unexpected());
        }
        self.advance_token();
        let precedence = if matches!(operator, TokenType::Carat) {
            operator_precedence - 1
        } else {
            operator_precedence
        };
        let right = self.expression(precedence)?;
        Ok(
            ASTNode::BinaryExpression(
                BinaryExpression { left: Box::new(left), operator, right: Box::new(right) },
            ),
        )
    }

    /// `lhs "=" Expression`, from the `=` on.
    fn variable_statement(&mut self, lhs: ASTNode) -> (r: Result<ASTNode, Error>)
        requires
            old(self).wf(),
        ensures
            final(self).wf(),
            final(self).source() == old(self).source(),
            final(self).failure() == old(self).failure(),
            node_read(
                old(self).source().variable_statement(lhs@, old(self).pos()),
                r,
                final(self).pos(),
            ),
            r is Ok ==> final(self).pos() > old(self).pos(),
        decreases old(self).left(), 7nat,
    {
        if !matches!(self.current(), TokenType::Equals) {
            return Err(self.unexpected());
        }
        self.advance_token();
        let expression = self.expression(0)?;
        Ok(
            ASTNode::VariableExpression(
                VariableExpression { lhs: Box::new(lhs), rhs: Box::new(expression) },
            ),
        )
    }

    /// `"func" Ident "(" (Ident ("," Ident)*)? ")" Block`
    fn function_expression(&mut self) -> (r: Result<ASTNode, Error>)
        requires
            old(self).wf(),
        ensures
            final(self).wf(),
            final(self).source() == old(self).source(),
            final(self).failure() == old(self).failure(),
            node_read(
                old(self).source().function_expression(old(self).pos()),
                r,
                final(self).pos(),
            ),
            r is Ok ==> final(self).pos() > old(self).pos(),
        decreases old(self).left(), 17nat,
    {
        self.eat_word("func")?;
        let name = self.eat_identifier()?;
        let func_args = self.parameters()?;
        let body = self.block_statement()?;
        Ok(
            ASTNode::FunctionStatement(
                FunctionStatement { name, body: Box::new(body), args: func_args },
            ),
        )
    }

    /// The names of the parameters of a function, in their parentheses.
    fn parameters(&mut self) -> (r: Result<Vec<String>, Error>)
        requires
            old(self).wf(),
        ensures
            final(self).wf(),
            final(self).source() == old(self).source(),
            final(self).failure() == old(self).failure(),
            names_read(old(self).source().parameters(old(self).pos()), r, final(self).pos()),
            r is Ok ==> final(self).pos() > old(self).pos(),
    {
        self.eat(&TokenType::OpenParen)?;
        let func_args = self.function_expression_args()?;
        self.eat(&TokenType::CloseParen)?;
        Ok(func_args)
    }

    /// The names of the parameters of a function.
    fn function_expression_args(&mut self) -> (r: Result<Vec<String>, Error>)
        requires
            old(self).wf(),
        ensures
            final(self).wf(),
            final(self).source() == old(self).source(),
            final(self).failure() == old(self).failure(),
            names_read(
                old(self).source().function_expression_args(old(self).pos()),
                r,
                final(self).pos(),
            ),
            r is Ok ==> final(self).pos() >= old(self).pos(),
    {
        let mut args: Vec<String> = Vec::new();
        if matches!(self.current(), TokenType::CloseParen) {
            proof {
                assert(texts(args@) =~= Seq::empty());
            }
            return Ok(args);
        }
        let ghost src = self.source();
        let ghost start = self.pos();
        proof {
            assert(texts(args@) =~= Seq::empty());
            assert(names_after(Seq::empty(), src.names(start)) == src.names(start));
        }
        loop
            invariant
                self.wf(),
                self.source() == src,
                self.failure() == old(self).failure(),
                src == old(self).source(),
                start == old(self).pos(),
                self.pos() >= start,
                src.function_expression_args(start) == src.names(start),
                src.names(start) == names_after(texts(args@), src.names(self.pos())),
            decreases self.left(),
        {
            let ghost done = texts(args@);
            let name = self.eat_identifier()?;
            args.push(name);
            proof {
                assert(texts(args@) =~= done.push(name@));
            }
            if matches!(self.current(), TokenType::CloseParen) {
                proof {
                    assert(texts(args@) =~= done + seq![name@]);
                }
                return Ok(args);
            }
            self.eat(&TokenType::Comma)?;
            proof {
                match src.names(self.pos()) {
                    Ok((rest, p)) => {
                        assert(texts(args@) + rest =~= done + (seq![name@] + rest));
                    },
                    Err(_) => {},
                }
            }
        }
    }

    /// What an expression starts with.
    fn prefix(&mut self) -> (r: Result<ASTNode, Error>)
        requires
            old(self).wf(),
        ensures
            final(self).wf(),
            final(self).source() == old(self).source(),
            final(self).failure() == old(self).failure(),
            node_read(old(self).source().prefix(old(self).pos()), r, final(self).pos()),
            r is Ok ==> final(self).pos() > old(self).pos() && !(old(self).source().at(
                old(self).pos(),
            ) is EOF),
        decreases old(self).left(), 6nat,
    {
        match self.current() {
            TokenType::OpenParen => self.parenthesized_expression(),
            TokenType::Minus => self.unary_expression(),
            TokenType::Identifier(ident) => {
                let ident = ident.clone();
                self.parse_identifier(ident)
            },
            TokenType::OpenSqBracket => self.list_literal(),
            _ => self.eat_literal(),
        }
    }

    /// `"[" (Expression ("," Expression)*)? "]"`
    fn list_literal(&mut self) -> (r: Result<ASTNode, Error>)
        requires
            old(self).wf(),
        ensures
            final(self).wf(),
            final(self).source() == old(self).source(),
            final(self).failure() == old(self).failure(),
            node_read(old(self).source().list_literal(old(self).pos()), r, final(self).pos()),
            r is Ok ==> final(self).pos() > old(self).pos(),
        decreases old(self).left(), 5nat,
    {
        self.eat(&TokenType::OpenSqBracket)?;
        if matches!(self.current(), TokenType::CloseSqBracket) {
            self.advance_token();
            let items: Vec<ASTNode> = Vec::new();
            proof {
                assert(view_all(items@) =~= Seq::empty());
            }
            return Ok(ASTNode::List(Box::new(items)));
        }
        let items = self.expressions(&TokenType::CloseSqBracket)?;
        self.eat(&TokenType::CloseSqBracket)?;
        Ok(ASTNode::List(Box::new(items)))
    }

    /// One expression at least, with a comma between two, up to the closing
    /// token, which is left.
    fn expressions(&mut self, close: &TokenType) -> (r: Result<Vec<ASTNode>, Error>)
        requires
            old(self).wf(),
        ensures
            final(self).wf(),
            final(self).source() == old(self).source(),
            final(self).failure() == old(self).failure(),
            nodes_read(
                old(self).source().expressions(old(self).pos(), close@),
                r,
                final(self).pos(),
            ),
            r is Ok ==> final(self).pos() > old(self).pos(),
        decreases old(self).left(), 12nat,
    {
        let mut items: Vec<ASTNode> = Vec::new();
        let ghost src = self.source();
        let ghost start = self.pos();
        proof {
            assert(view_all(items@) =~= Seq::empty());
            assert(after(Seq::empty(), src.expressions(start, close@)) == src.expressions(
                start,
                close@,
            ));
        }
        loop
            invariant
                self.wf(),
                self.source() == src,
                self.failure() == old(self).failure(),
                src == old(self).source(),
                start == old(self).pos(),
                self.pos() >= start,
                items.len() > 0 ==> self.pos() > start,
                src.expressions(start, close@) == after(
                    view_all(items@),
                    src.expressions(self.pos(), close@),
                ),
            decreases self.left(),
        {
            let ghost done = view_all(items@);
            let node = self.expression(0)?;
            if close.same(self.current()) {
                items.push(node);
                proof {
                    assert(view_all(items@) =~= done + seq![node@]);
                }
                return Ok(items);
            }
            self.eat(&TokenType::Comma)?;
            items.push(node);
            proof {
                assert(view_all(items@) =~= done.push(node@));
                match src.expressions(self.pos(), close@) {
                    Ok((rest, p)) => {
                        assert(view_all(items@) + rest =~= done + (seq![node@] + rest));
                    },
                    Err(_) => {},
                }
            }
        }
    }

    /// What an identifier starts.
    fn parse_identifier(&mut self, ident: String) -> (r: Result<ASTNode, Error>)
        requires
            old(self).wf(),
        ensures
            final(self).wf(),
            final(self).source() == old(self).source(),
            final(self).failure() == old(self).failure(),
            node_read(
                old(self).source().parse_identifier(ident@, old(self).pos()),
                r,
                final(self).pos(),
            ),
            r is Ok ==> final(self).pos() > old(self).pos(),
        decreases old(self).left(), 5nat,
    {
        if !matches!(self.current(), TokenType::Identifier(_)) {
            return Err(self.unexpected());
        }
        match self.lookahead() {
            TokenType::OpenParen => {
                self.advance_token();
                return self.call_expression(ASTNode::Identifier(ident));
            },
            TokenType::OpenSqBracket | TokenType::Dot => {
                self.advance_token();
                return self.member_expression(ASTNode::Identifier(ident));
            },
            _ => {},
        }
        if same_text(ident.as_str(), "return") {
            self.return_expression()
        } else if same_text(ident.as_str(), "true") {
            Ok(self.eat_bool(true))
        } else if same_text(ident.as_str(), "false") {
            Ok(self.eat_bool(false))
        } else if same_text(ident.as_str(), "none") {
            self.advance_token();
            Ok(ASTNode::Nothing)
        } else if self.is_command(ident.as_str()) {
            Ok(self.command(ident))
        } else {
            self.advance_token();
            let node = ASTNode::Identifier(ident);
            if matches!(self.current(), TokenType::Equals) {
                self.variable_statement(node)
            } else {
                Ok(node)
            }
        }
    }

    /// `true` or `false`.
    fn eat_bool(&mut self, b: bool) -> (r: ASTNode)
        requires
            old(self).wf(),
        ensures
            final(self).wf(),
            final(self).source() == old(self).source(),
            final(self).failure() == old(self).failure(),
            final(self).pos() == old(self).source().next(old(self).pos()),
            r@ == Node::Boolean(b),
    {
        self.advance_token();
        ASTNode::Boolean(b)
    }

    /// A chain of members, indexes and calls behind a base, and the
    /// assignment to it where `=` follows.
    fn member_expression(&mut self, base: ASTNode) -> (r: Result<ASTNode, Error>)
        requires
            old(self).wf(),
            old(self).source().at(old(self).pos()) is Dot || old(self).source().at(
                old(self).pos(),
            ) is OpenSqBracket || old(self).source().at(old(self).pos()) is OpenParen,
        ensures
            final(self).wf(),
            final(self).source() == old(self).source(),
            final(self).failure() == old(self).failure(),
            node_read(
                old(self).source().member_expression(base@, old(self).pos()),
                r,
                final(self).pos(),
            ),
            r is Ok ==> final(self).pos() > old(self).pos(),
        decreases old(self).left(), 4nat,
    {
        let ghost src = self.source();
        let ghost start = self.pos();
        let mut node = base;
        while self.chain_follows()
            invariant
                self.wf(),
                self.source() == src,
                self.failure() == old(self).failure(),
                src == old(self).source(),
                start == old(self).pos(),
                self.pos() >= start,
                self.pos() == start ==> node@ == base@,
                src.at(start) is Dot || src.at(start) is OpenSqBracket || src.at(start) is OpenParen,
                src.member_chain(base@, start) == src.member_chain(node@, self.pos()),
            decreases self.left(),
        {
            node = self.member_prefix_expression(node)?;
        }
        if matches!(self.current(), TokenType::Equals) {
            self.variable_statement(node)
        } else {
            Ok(node)
        }
    }

    /// Whether a member, an index or a call follows.
    fn chain_follows(&self) -> (r: bool)
        requires
            self.wf(),
        ensures
            r == (self.source().at(self.pos()) is Dot || self.source().at(self.pos())
                is OpenSqBracket || self.source().at(self.pos()) is OpenParen),
    {
        match self.current() {
            TokenType::Dot | TokenType::OpenSqBracket | TokenType::OpenParen => true,
            _ => false,
        }
    }

    /// `"." Ident`, `"[" Expression "]"` or a call, behind a base.
    fn member_prefix_expression(&mut self, base: ASTNode) -> (r: Result<ASTNode, Error>)
        requires
            old(self).wf(),
        ensures
            final(self).wf(),
            final(self).source() == old(self).source(),
            final(self).failure() == old(self).failure(),
            node_read(
                old(self).source().member_prefix_expression(base@, old(self).pos()),
                r,
                final(self).pos(),
            ),
            r is Ok ==> final(self).pos() > old(self).pos(),
        decreases old(self).left(), 2nat,
    {
        match self.current() {
            TokenType::Dot => {
                self.advance_token();
                let property = self.eat_identifier()?;
                Ok(ASTNode::MemberExpression(MemberExpression { base: Box::new(base), property }))
            },
            TokenType::OpenSqBracket => {
                self.advance_token();
                let index = self.expression(0)?;
                self.eat(&TokenType::CloseSqBracket)?;
                Ok(
                    ASTNode::IndexExpression(
                        IndexExpression { base: Box::new(base), index: Box::new(index) },
                    ),
                )
            },
            TokenType::OpenParen => self.call_expression(base),
            _ => Err(self.unexpected()),
        }
    }

    /// A command: its name, and the fragments up to the end of its line.
    fn command(&mut self, cmd: String) -> (r: ASTNode)
        requires
            old(self).wf(),
            !(old(self).source().at(old(self).pos()) is EOF),
        ensures
            final(self).wf(),
            final(self).source() == old(self).source(),
            final(self).failure() == old(self).failure(),
            r@ == Node::Command(
                seq![Node::String(cmd@)] + old(self).source().command_parts(
                    old(self).source().next_cmd(old(self).pos()),
                    old(self).source().at(old(self).pos()),
                ).0,
            ),
            final(self).pos() == old(self).source().command_parts(
                old(self).source().next_cmd(old(self).pos()),
                old(self).source().at(old(self).pos()),
            ).1,
            final(self).pos() > old(self).pos(),
    {
        let ghost src = self.source();
        let ghost start = src.next_cmd(self.pos());
        let ghost first = src.at(self.pos());
        let ghost name = cmd@;
        let mut tokens: Vec<ASTNode> = Vec::new();
        tokens.push(ASTNode::String(cmd));
        let mut after_backslash = matches!(self.current(), TokenType::BackSlash);
        self.advance_cmd_token();
        let ghost mut prev = first;
        proof {
            assert(view_all(tokens@) =~= seq![Node::String(name)]);
        }
        loop
            invariant
                self.wf(),
                self.source() == src,
                self.failure() == old(self).failure(),
                src == old(self).source(),
                self.pos() > old(self).pos(),
                start == src.next_cmd(old(self).pos()),
                first == src.at(old(self).pos()),
                name == cmd@,
                after_backslash == (prev is BackSlash),
                seq![Node::String(name)] + src.command_parts(start, first).0 == view_all(tokens@)
                    + src.command_parts(self.pos(), prev).0,
                src.command_parts(start, first).1 == src.command_parts(self.pos(), prev).1,
            decreases self.left(),
        {
            let ghost done = view_all(tokens@);
            let ghost pos = self.pos();
            if self.current().is_end_line() && !after_backslash {
                proof {
                    assert(done + Seq::<Node>::empty() =~= done);
                }
                return ASTNode::Command(Box::new(tokens));
            }
            let node = make_fragment(self.current());
            let at_end = matches!(self.current(), TokenType::EOF);
            after_backslash = matches!(self.current(), TokenType::BackSlash);
            let ghost made = node@;
            tokens.push(node);
            proof {
                assert(view_all(tokens@) =~= done.push(made));
            }
            if at_end {
                proof {
                    assert(view_all(tokens@) =~= done + seq![made]);
                }
                return ASTNode::Command(Box::new(tokens));
            }
            self.advance_cmd_token();
            proof {
                let token = src.at(pos);
                let rest = src.command_parts(pos + 1, token).0;
                assert(view_all(tokens@) + rest =~= done + (seq![made] + rest));
                prev = token;
            }
        }
    }

    /// `"(" Expression ")"`
    fn parenthesized_expression(&mut self) -> (r: Result<ASTNode, Error>)
        requires
            old(self).wf(),
        ensures
            final(self).wf(),
            final(self).source() == old(self).source(),
            final(self).failure() == old(self).failure(),
            node_read(
                old(self).source().parenthesized_expression(old(self).pos()),
                r,
                final(self).pos(),
            ),
            r is Ok ==> final(self).pos() > old(self).pos(),
        decreases old(self).left(), 5nat,
    {
        if !matches!(self.current(), TokenType::OpenParen) {
            return Err(self.unexpected());
        }
        self.advance_token();
        let expression = self.expression(0)?;
        self.eat(&TokenType::CloseParen)?;
        Ok(expression)
    }

    /// `"return" Expression`
    fn return_expression(&mut self) -> (r: Result<ASTNode, Error>)
        requires
            old(self).wf(),
        ensures
            final(self).wf(),
            final(self).source() == old(self).source(),
            final(self).failure() == old(self).failure(),
            node_read(
                old(self).source().return_expression(old(self).pos()),
                r,
                final(self).pos(),
            ),
            r is Ok ==> final(self).pos() > old(self).pos(),
        decreases old(self).left(), 4nat,
    {
        self.eat_word("return")?;
        let expression = self.expression(0)?;
        Ok(ASTNode::ReturnStatement(Box::new(expression)))
    }

    /// A call behind a base, and the chain that a dot behind it starts.
    fn call_expression(&mut self, base: ASTNode) -> (r: Result<ASTNode, Error>)
        requires
            old(self).wf(),
        ensures
            final(self).wf(),
            final(self).source() == old(self).source(),
            final(self).failure() == old(self).failure(),
            node_read(
                old(self).source().call_expression(base@, old(self).pos()),
                r,
                final(self).pos(),
            ),
            r is Ok ==> final(self).pos() > old(self).pos(),
        decreases old(self).left(), 1nat,
    {
        if !matches!(self.current(), TokenType::OpenParen) {
            return Err(self.unexpected());
        }
        self.advance_token();
        let args = self.call_expression_args()?;
        self.eat(&TokenType::CloseParen)?;
        let call_expression = ASTNode::CallExpression(CallExpression { base: Box::new(base), args });
        if matches!(self.current(), TokenType::Dot) {
            return self.member_expression(call_expression);
        }
        Ok(call_expression)
    }

    /// The arguments of a call, up to the closing parenthesis.
    fn call_expression_args(&mut self) -> (r: Result<Vec<ASTNode>, Error>)
        requires
            old(self).wf(),
        ensures
            final(self).wf(),
            final(self).source() == old(self).source(),
            final(self).failure() == old(self).failure(),
            nodes_read(
                old(self).source().call_expression_args(old(self).pos()),
                r,
                final(self).pos(),
            ),
            r is Ok ==> final(self).pos() >= old(self).pos(),
        decreases old(self).left(), 13nat,
    {
        if matches!(self.current(), TokenType::CloseParen) {
            let args: Vec<ASTNode> = Vec::new();
            proof {
                assert(view_all(args@) =~= Seq::empty());
            }
            return Ok(args);
        }
        self.expressions(&TokenType::CloseParen)
    }

    /// `"-" Expression`
    fn unary_expression(&mut self) -> (r: Result<ASTNode, Error>)
        requires
            old(self).wf(),
        ensures
            final(self).wf(),
            final(self).source() == old(self).source(),
            final(self).failure() == old(self).failure(),
            node_read(old(self).source().unary_expression(old(self).pos()), r, final(self).pos()),
            r is Ok ==> final(self).pos() > old(self).pos(),
        decreases old(self).left(), 5nat,
    {
        if !matches!(self.current(), TokenType::Minus) {
            return Err(self.unexpected());
        }
        self.advance_token();
        Ok(ASTNode::UnaryExpression(Box::new(self.expression(4)?)))
    }

    /// A literal: a number, a string or a template string; an integer with
    /// a dot behind it starts a range.
    fn eat_literal(&mut self) -> (r: Result<ASTNode, Error>)
        requires
            old(self).wf(),
        ensures
            final(self).wf(),
            final(self).source() == old(self).source(),
            final(self).failure() == old(self).failure(),
            node_read(old(self).source().eat_literal(old(self).pos()), r, final(self).pos()),
            r is Ok ==> final(self).pos() > old(self).pos(),
        decreases old(self).left(), 5nat,
    {
        let node = match self.current() {
            TokenType::Decimal(text) => ASTNode::Number(NumberLiteral::Decimal(text.clone())),
            TokenType::Integer(n) => {
                let number = ASTNode::Number(NumberLiteral::Integer(*n));
                if matches!(self.lookahead(), TokenType::Dot) {
                    self.advance_token();
                    return Ok(ASTNode::RangeExpression(self.range_expression(number)?));
                }
                number
            },
            TokenType::String(s) => ASTNode::String(s.clone()),
            TokenType::TemplateString(ts) => read_template_string(ts.as_str()),
            _ => return Err(self.unexpected()),
        };
        self.advance_token();
        Ok(node)
    }
}

} // verus!
