use vstd::prelude::*;
use crate::ast::ast::Node;
use crate::error::ErrorKind;
use crate::lexer::token::{ends_line, TokenType};
use crate::parser::grammar::{forward, is_word, precedence_of, right_precedence, Parsed, Source};

verus! {

/// Whether the operators stop at a token, for an operand that was read with
/// the given precedence: the token ends the line, or binds no more strongly.
pub open spec fn stops(token: TokenType<Seq<char>>, precedence: nat) -> bool {
    ends_line(token) || precedence >= precedence_of(token)
}

/// An integer with no operator behind it that binds strongly enough is an
/// expression by itself.
pub proof fn lemma_integer(s: Source, p: int, n: usize, precedence: nat)
    requires
        s.at(p) == TokenType::<Seq<char>>::Integer(n),
        s.next(p) == p + 1,
        !(s.at(p + 1) is Dot),
        stops(s.at(p + 1), precedence),
    ensures
        s.expression(p, precedence) == Ok::<(Node, int), TokenType<Seq<char>>>((Node::Integer(n), p + 1)),
{
    reveal_with_fuel(Source::expression, 4);
}

/// An operator that binds strongly enough takes the expression behind it as
/// its right operand, read with the operator's own precedence.
pub proof fn lemma_operator(
    s: Source,
    left: Node,
    p: int,
    precedence: nat,
    right: Node,
    q: int,
)
    requires
        !ends_line(s.at(p)),
        precedence < precedence_of(s.at(p)),
        s.next(p) == p + 1,
        s.expression(p + 1, right_precedence(s.at(p))) == Ok::<(Node, int), TokenType<Seq<char>>>((right, q)),
        q > p,
        stops(s.at(q), precedence),
    ensures
        s.infixes(left, p, precedence) == Ok::<(Node, int), TokenType<Seq<char>>>(
            (Node::Binary { left: Box::new(left), operator: s.at(p), right: Box::new(right) }, q),
        ),
{
    reveal_with_fuel(Source::infixes, 4);
}

/// An integer and the operators behind it are an expression.
pub proof fn lemma_integer_then(
    s: Source,
    p: int,
    n: usize,
    precedence: nat,
    node: Node,
    q: int,
)
    requires
        s.at(p) == TokenType::<Seq<char>>::Integer(n),
        s.next(p) == p + 1,
        !(s.at(p + 1) is Dot),
        s.infixes(Node::Integer(n), p + 1, precedence) == Ok::<(Node, int), TokenType<Seq<char>>>((node, q)),
    ensures
        s.expression(p, precedence) == Ok::<(Node, int), TokenType<Seq<char>>>((node, q)),
{
    reveal_with_fuel(Source::expression, 4);
}

/// An expression in parentheses and the operators behind it are an
/// expression; the parentheses leave no trace in it.
pub proof fn lemma_parentheses(
    s: Source,
    p: int,
    precedence: nat,
    inner: Node,
    q: int,
    node: Node,
    r: int,
)
    requires
        s.at(p) is OpenParen,
        s.next(p) == p + 1,
        s.expression(p + 1, 0) == Ok::<(Node, int), TokenType<Seq<char>>>((inner, q)),
        q > p,
        s.at(q) is CloseParen,
        s.next(q) == q + 1,
        s.infixes(inner, q + 1, precedence) == Ok::<(Node, int), TokenType<Seq<char>>>((node, r)),
    ensures
        s.expression(p, precedence) == Ok::<(Node, int), TokenType<Seq<char>>>((node, r)),
{
    reveal_with_fuel(Source::expression, 4);
}

/// A negation takes the expression behind it that is read with precedence
/// 4, so that of the operators `^` alone belongs to its operand.
pub proof fn lemma_negation(
    s: Source,
    p: int,
    precedence: nat,
    inner: Node,
    q: int,
    node: Node,
    r: int,
)
    requires
        s.at(p) is Minus,
        s.next(p) == p + 1,
        s.expression(p + 1, 4) == Ok::<(Node, int), TokenType<Seq<char>>>((inner, q)),
        q > p,
        s.infixes(Node::Unary(Box::new(inner)), q, precedence) == Ok::<(Node, int), TokenType<Seq<char>>>(
            (node, r),
        ),
    ensures
        s.expression(p, precedence) == Ok::<(Node, int), TokenType<Seq<char>>>((node, r)),
{
    reveal_with_fuel(Source::expression, 4);
}

/// No operator is taken at a token that stops them.
pub proof fn lemma_stop(s: Source, left: Node, p: int, precedence: nat)
    requires
        stops(s.at(p), precedence),
    ensures
        s.infixes(left, p, precedence) == Ok::<(Node, int), TokenType<Seq<char>>>((left, p)),
{
    reveal_with_fuel(Source::infixes, 2);
}

/// One expression up to the end of input is a program of one statement.
pub proof fn lemma_one_statement(s: Source, node: Node, q: int)
    requires
        s.skip_blank(0) == 0,
        !(s.at(0) is EOF),
        !(s.at(0) is Newline),
        !(s.at(0) is Identifier),
        s.expression(0, 0) == Ok::<(Node, int), TokenType<Seq<char>>>((node, q)),
        q > 0,
        s.at(q) is EOF,
    ensures
        s.program() == Ok::<Node, TokenType<Seq<char>>>(Node::Program(seq![node])),
{
    reveal_with_fuel(Source::statement_list, 4);
    assert(seq![node] + Seq::<Node>::empty() =~= seq![node]);
}

/// The tokens of `a + b * c`.
pub open spec fn sum_of_product(a: usize, b: usize, c: usize) -> Seq<TokenType<Seq<char>>> {
    seq![
        TokenType::Integer(a),
        TokenType::Plus,
        TokenType::Integer(b),
        TokenType::Asterisk,
        TokenType::Integer(c),
        TokenType::EOF,
    ]
}

/// The tokens of `a + (b * c)`.
pub open spec fn sum_of_product_in_parentheses(a: usize, b: usize, c: usize) -> Seq<
    TokenType<Seq<char>>,
> {
    seq![
        TokenType::Integer(a),
        TokenType::Plus,
        TokenType::OpenParen,
        TokenType::Integer(b),
        TokenType::Asterisk,
        TokenType::Integer(c),
        TokenType::CloseParen,
        TokenType::EOF,
    ]
}

/// The tokens of `a ^ b ^ c`.
pub open spec fn power_of_power(a: usize, b: usize, c: usize) -> Seq<TokenType<Seq<char>>> {
    seq![
        TokenType::Integer(a),
        TokenType::Carat,
        TokenType::Integer(b),
        TokenType::Carat,
        TokenType::Integer(c),
        TokenType::EOF,
    ]
}

/// The tokens of `a ^ (b ^ c)`.
pub open spec fn power_of_power_in_parentheses(a: usize, b: usize, c: usize) -> Seq<
    TokenType<Seq<char>>,
> {
    seq![
        TokenType::Integer(a),
        TokenType::Carat,
        TokenType::OpenParen,
        TokenType::Integer(b),
        TokenType::Carat,
        TokenType::Integer(c),
        TokenType::CloseParen,
        TokenType::EOF,
    ]
}

/// The tokens of `-a ^ b`.
pub open spec fn negated_power(a: usize, b: usize) -> Seq<TokenType<Seq<char>>> {
    seq![
        TokenType::Minus,
        TokenType::Integer(a),
        TokenType::Carat,
        TokenType::Integer(b),
        TokenType::EOF,
    ]
}

/// The tokens of `(-a) ^ b`.
pub open spec fn power_of_negation(a: usize, b: usize) -> Seq<TokenType<Seq<char>>> {
    seq![
        TokenType::OpenParen,
        TokenType::Minus,
        TokenType::Integer(a),
        TokenType::CloseParen,
        TokenType::Carat,
        TokenType::Integer(b),
        TokenType::EOF,
    ]
}

/// `left operator right`, as a tree.
pub open spec fn binary(left: Node, operator: TokenType<Seq<char>>, right: Node) -> Node {
    Node::Binary { left: Box::new(left), operator, right: Box::new(right) }
}

/// The position behind a token that no whitespace follows is the next
/// one.
proof fn lemma_next_plain(s: Source, p: int)
    requires
        0 <= p < s.tokens.len() - 1,
        !(s.tokens[p] is EOF),
        !(s.tokens[p + 1] is Whitespace),
    ensures
        s.next(p) == p + 1,
{
    reveal_with_fuel(Source::skip_blank, 2);
}

/// A product binds more strongly than a sum: for all numbers `a`, `b` and
/// `c`, `a + b * c` is parsed to the program that `a + (b * c)` is parsed to,
/// the sum of `a` and the product of `b` and `c`.
pub proof fn law_product_before_sum(a: usize, b: usize, c: usize, commands: Seq<Seq<char>>)
    ensures
        (Source { tokens: sum_of_product(a, b, c), commands }).program() == Ok::<Node, TokenType<Seq<char>>>(
            Node::Program(
                seq![
                    binary(
                        Node::Integer(a),
                        TokenType::Plus,
                        binary(Node::Integer(b), TokenType::Asterisk, Node::Integer(c)),
                    ),
                ],
            ),
        ),
        (Source { tokens: sum_of_product(a, b, c), commands }).program() == (Source {
            tokens: sum_of_product_in_parentheses(a, b, c),
            commands,
        }).program(),
{
    let product = binary(Node::Integer(b), TokenType::Asterisk, Node::Integer(c));
    let sum = binary(Node::Integer(a), TokenType::Plus, product);
    let s = Source { tokens: sum_of_product(a, b, c), commands };
    lemma_next_plain(s, 0);
    lemma_next_plain(s, 1);
    lemma_next_plain(s, 2);
    lemma_next_plain(s, 3);
    lemma_next_plain(s, 4);
    lemma_integer(s, 4, c, 3);
    lemma_operator(s, Node::Integer(b), 3, 2, Node::Integer(c), 5);
    lemma_integer_then(s, 2, b, 2, product, 5);
    lemma_operator(s, Node::Integer(a), 1, 0, product, 5);
    lemma_integer_then(s, 0, a, 0, sum, 5);
    reveal_with_fuel(Source::skip_blank, 2);
    lemma_one_statement(s, sum, 5);
    let t = Source { tokens: sum_of_product_in_parentheses(a, b, c), commands };
    lemma_next_plain(t, 0);
    lemma_next_plain(t, 1);
    lemma_next_plain(t, 2);
    lemma_next_plain(t, 3);
    lemma_next_plain(t, 4);
    lemma_next_plain(t, 5);
    lemma_next_plain(t, 6);
    lemma_integer(t, 5, c, 3);
    lemma_operator(t, Node::Integer(b), 4, 0, Node::Integer(c), 6);
    lemma_integer_then(t, 3, b, 0, product, 6);
    lemma_stop(t, product, 7, 2);
    lemma_parentheses(t, 2, 2, product, 6, product, 7);
    lemma_operator(t, Node::Integer(a), 1, 0, product, 7);
    lemma_integer_then(t, 0, a, 0, sum, 7);
    lemma_one_statement(t, sum, 7);
}

/// Powers group to the right: for all numbers `a`, `b` and `c`, `a ^ b ^ c`
/// is parsed to the program that `a ^ (b ^ c)` is parsed to.
pub proof fn law_power_groups_right(a: usize, b: usize, c: usize, commands: Seq<Seq<char>>)
    ensures
        (Source { tokens: power_of_power(a, b, c), commands }).program() == Ok::<Node, TokenType<Seq<char>>>(
            Node::Program(
                seq![
                    binary(
                        Node::Integer(a),
                        TokenType::Carat,
                        binary(Node::Integer(b), TokenType::Carat, Node::Integer(c)),
                    ),
                ],
            ),
        ),
        (Source { tokens: power_of_power(a, b, c), commands }).program() == (Source {
            tokens: power_of_power_in_parentheses(a, b, c),
            commands,
        }).program(),
{
    let inner = binary(Node::Integer(b), TokenType::Carat, Node::Integer(c));
    let outer = binary(Node::Integer(a), TokenType::Carat, inner);
    let s = Source { tokens: power_of_power(a, b, c), commands };
    lemma_next_plain(s, 0);
    lemma_next_plain(s, 1);
    lemma_next_plain(s, 2);
    lemma_next_plain(s, 3);
    lemma_next_plain(s, 4);
    lemma_integer(s, 4, c, 4);
    lemma_operator(s, Node::Integer(b), 3, 4, Node::Integer(c), 5);
    lemma_integer_then(s, 2, b, 4, inner, 5);
    lemma_operator(s, Node::Integer(a), 1, 0, inner, 5);
    lemma_integer_then(s, 0, a, 0, outer, 5);
    reveal_with_fuel(Source::skip_blank, 2);
    lemma_one_statement(s, outer, 5);
    let t = Source { tokens: power_of_power_in_parentheses(a, b, c), commands };
    lemma_next_plain(t, 0);
    lemma_next_plain(t, 1);
    lemma_next_plain(t, 2);
    lemma_next_plain(t, 3);
    lemma_next_plain(t, 4);
    lemma_next_plain(t, 5);
    lemma_next_plain(t, 6);
    lemma_integer(t, 5, c, 4);
    lemma_operator(t, Node::Integer(b), 4, 0, Node::Integer(c), 6);
    lemma_integer_then(t, 3, b, 0, inner, 6);
    lemma_stop(t, inner, 7, 4);
    lemma_parentheses(t, 2, 4, inner, 6, inner, 7);
    lemma_operator(t, Node::Integer(a), 1, 0, inner, 7);
    lemma_integer_then(t, 0, a, 0, outer, 7);
    lemma_one_statement(t, outer, 7);
}

/// A power binds more strongly than a negation: for all numbers `a` and `b`,
/// `-a ^ b` is parsed to the negation of the power, and `(-a) ^ b` to the
/// power of the negation.
pub proof fn law_power_before_negation(a: usize, b: usize, commands: Seq<Seq<char>>)
    ensures
        (Source { tokens: negated_power(a, b), commands }).program() == Ok::<Node, TokenType<Seq<char>>>(
            Node::Program(
                seq![
                    Node::Unary(
                        Box::new(binary(Node::Integer(a), TokenType::Carat, Node::Integer(b))),
                    ),
                ],
            ),
        ),
        (Source { tokens: power_of_negation(a, b), commands }).program() == Ok::<Node, TokenType<Seq<char>>>(
            Node::Program(
                seq![
                    binary(
                        Node::Unary(Box::new(Node::Integer(a))),
                        TokenType::Carat,
                        Node::Integer(b),
                    ),
                ],
            ),
        ),
{
    let power = binary(Node::Integer(a), TokenType::Carat, Node::Integer(b));
    let s = Source { tokens: negated_power(a, b), commands };
    lemma_next_plain(s, 0);
    lemma_next_plain(s, 1);
    lemma_next_plain(s, 2);
    lemma_next_plain(s, 3);
    lemma_integer(s, 3, b, 4);
    lemma_operator(s, Node::Integer(a), 2, 4, Node::Integer(b), 4);
    lemma_integer_then(s, 1, a, 4, power, 4);
    lemma_stop(s, Node::Unary(Box::new(power)), 4, 0);
    lemma_negation(s, 0, 0, power, 4, Node::Unary(Box::new(power)), 4);
    reveal_with_fuel(Source::skip_blank, 2);
    lemma_one_statement(s, Node::Unary(Box::new(power)), 4);
    let negation = Node::Unary(Box::new(Node::Integer(a)));
    let t = Source { tokens: power_of_negation(a, b), commands };
    lemma_next_plain(t, 0);
    lemma_next_plain(t, 1);
    lemma_next_plain(t, 2);
    lemma_next_plain(t, 3);
    lemma_next_plain(t, 4);
    lemma_next_plain(t, 5);
    lemma_integer(t, 2, a, 4);
    lemma_stop(t, negation, 3, 0);
    lemma_negation(t, 1, 0, Node::Integer(a), 3, negation, 3);
    lemma_integer(t, 5, b, 4);
    lemma_operator(t, negation, 4, 0, Node::Integer(b), 6);
    lemma_parentheses(t, 0, 0, negation, 3, binary(negation, TokenType::Carat, Node::Integer(b)), 6);
    lemma_one_statement(t, binary(negation, TokenType::Carat, Node::Integer(b)), 6);
}

} // verus!
