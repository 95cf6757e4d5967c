use vstd::prelude::*;
use vstd::string::*;
use vstd::utf8::*;
use crate::common::utils::{all_ascii, ascii_text, lemma_ascii_text, string_from_utf8, text_of};
use crate::error::{Error, ErrorKind};
use crate::lexer::token::TokenType;

verus! {

pub const TAB: u8 = 9;
pub const NEWLINE: u8 = 10;
pub const CARRIAGE_RETURN: u8 = 13;
pub const SPACE: u8 = 32;
pub const BANG: u8 = 33;
pub const DOUBLE_QUOTE: u8 = 34;
pub const HASH: u8 = 35;
pub const DOLLAR: u8 = 36;
pub const AMPERSAND: u8 = 38;
pub const QUOTE: u8 = 39;
pub const OPEN_PAREN: u8 = 40;
pub const CLOSE_PAREN: u8 = 41;
pub const STAR: u8 = 42;
pub const PLUS: u8 = 43;
pub const COMMA: u8 = 44;
pub const MINUS: u8 = 45;
pub const DOT: u8 = 46;
pub const SLASH: u8 = 47;
pub const SEMICOLON: u8 = 59;
pub const LESS: u8 = 60;
pub const EQUAL: u8 = 61;
pub const GREATER: u8 = 62;
pub const OPEN_BRACKET: u8 = 91;
pub const BACKSLASH: u8 = 92;
pub const CLOSE_BRACKET: u8 = 93;
pub const CARET: u8 = 94;
pub const UNDERSCORE: u8 = 95;
pub const OPEN_BRACE: u8 = 123;
pub const PIPE: u8 = 124;
pub const CLOSE_BRACE: u8 = 125;

/// A class of bytes that a run of input can be read by.
#[derive(Debug, Clone, Copy, PartialEq, Eq, Structural)]
pub enum ByteClass {
    /// An ASCII digit.
    Digit,
    /// An ASCII letter or digit.
    Alphanumeric,
    /// An ASCII letter, a digit or an underscore: what an identifier holds
    /// after its first letter.
    Word,
    /// A space, a tab or a carriage return.
    Blank,
    /// Any byte but the given one.
    Except(u8),
}

pub open spec fn is_digit(b: u8) -> bool {
    48 <= b <= 57
}

pub open spec fn is_alphabetic(b: u8) -> bool {
    65 <= b <= 90 || 97 <= b <= 122
}

pub open spec fn is_blank(b: u8) -> bool {
    b == SPACE || b == TAB || b == CARRIAGE_RETURN
}

impl ByteClass {
    /// Whether the byte belongs to the class.
    pub open spec fn holds(self, b: u8) -> bool {
        match self {
            ByteClass::Digit => is_digit(b),
            ByteClass::Alphanumeric => is_digit(b) || is_alphabetic(b),
            ByteClass::Word => is_digit(b) || is_alphabetic(b) || b == UNDERSCORE,
            ByteClass::Blank => is_blank(b),
            ByteClass::Except(x) => b != x,
        }
    }

    /// Whether the byte belongs to the class.
    pub fn contains(self, b: u8) -> (r: bool)
        ensures
            r == self.holds(b),
    {
        match self {
            ByteClass::Digit => 48 <= b && b <= 57,
            ByteClass::Alphanumeric => (48 <= b && b <= 57) || (65 <= b && b <= 90) || (97 <= b
                && b <= 122),
            ByteClass::Word => (48 <= b && b <= 57) || (65 <= b && b <= 90) || (97 <= b && b
                <= 122) || b == UNDERSCORE,
            ByteClass::Blank => b == SPACE || b == TAB || b == CARRIAGE_RETURN,
            ByteClass::Except(x) => b != x,
        }
    }
}

/// Whether a byte is a blank: a space, a tab or a carriage return. The
/// newline is a token of its own.
pub fn is_whitespace(byte: u8) -> (r: bool)
    ensures
        r == is_blank(byte),
{
    byte == SPACE || byte == TAB || byte == CARRIAGE_RETURN
}

/// The length of the longest run of bytes of a class that starts at `from`.
pub open spec fn run_length(src: Seq<u8>, from: int, class: ByteClass) -> nat
    decreases src.len() - from,
{
    if 0 <= from < src.len() && class.holds(src[from]) {
        1 + run_length(src, from + 1, class)
    } else {
        0
    }
}

/// A run never leaves the input.
pub proof fn lemma_run_length_bound(src: Seq<u8>, from: int, class: ByteClass)
    requires
        0 <= from <= src.len(),
    ensures
        from + run_length(src, from, class) <= src.len(),
        forall|i: int|
            from <= i < from + run_length(src, from, class) ==> class.holds(#[trigger] src[i]),
    decreases src.len() - from,
{
    if from < src.len() && class.holds(src[from]) {
        lemma_run_length_bound(src, from + 1, class);
    }
}

/// The number that a run of decimal digits writes.
pub open spec fn decimal_value(digits: Seq<u8>) -> nat
    decreases digits.len(),
{
    if digits.len() == 0 {
        0
    } else {
        decimal_value(digits.drop_last()) * 10 + (digits.last() - 48) as nat
    }
}

/// The token that starts with a digit at `at`. A run of digits, a dot and one
/// more digit at least make a decimal, which keeps its text; a run of digits
/// alone is an integer, and a dot behind it is left for the next token. An
/// integer that does not fit the machine word is an error.
pub open spec fn number_at(src: Seq<u8>, at: int) -> Result<(TokenType<Seq<char>>, nat), ErrorKind> {
    let whole = run_length(src, at, ByteClass::Digit);
    let fraction = run_length(src, at + whole + 1, ByteClass::Digit);
    if at + whole < src.len() && src[at + whole] == DOT && fraction > 0 {
        Ok(
            (
                TokenType::Decimal(ascii_text(src.subrange(at, at + whole + 1 + fraction))),
                whole + 1 + fraction,
            ),
        )
    } else if decimal_value(src.subrange(at, at + whole)) <= usize::MAX {
        Ok((TokenType::Integer(decimal_value(src.subrange(at, at + whole)) as usize), whole))
    } else {
        Err(ErrorKind::Lexical)
    }
}

/// The token that a quote opens at `at`: the bytes up to the next quote of the
/// same kind, or to the end of input, read as UTF-8. No escape is known.
pub open spec fn string_at(src: Seq<u8>, at: int, quote: u8) -> Result<
    (TokenType<Seq<char>>, nat),
    ErrorKind,
> {
    let n = run_length(src, at + 1, ByteClass::Except(quote));
    let length = if at + n + 2 <= src.len() {
        n + 2
    } else {
        n + 1
    };
    match text_of(src.subrange(at + 1, at + 1 + n)) {
        Some(text) => if quote == QUOTE {
            Ok((TokenType::String(text), length))
        } else {
            Ok((TokenType::TemplateString(text), length))
        },
        None => Err(ErrorKind::Lexical),
    }
}

/// Whether the byte after `at` is the given one.
pub open spec fn followed_by(src: Seq<u8>, at: int, b: u8) -> bool {
    at + 1 < src.len() && src[at + 1] == b
}

/// The token that starts at `at`, with the number of bytes it takes, whitespace
/// and comments included as tokens.
pub open spec fn token_at(src: Seq<u8>, at: int) -> Result<(TokenType<Seq<char>>, nat), ErrorKind> {
    if at < 0 || at >= src.len() {
        Ok((TokenType::EOF, 0))
    } else {
        let b = src[at];
        if b == MINUS {
            Ok((TokenType::Minus, 1))
        } else if b == COMMA {
            Ok((TokenType::Comma, 1))
        } else if b == SEMICOLON {
            Ok((TokenType::SemiColon, 1))
        } else if b == DOT {
            Ok((TokenType::Dot, 1))
        } else if b == OPEN_PAREN {
            Ok((TokenType::OpenParen, 1))
        } else if b == CLOSE_PAREN {
            Ok((TokenType::CloseParen, 1))
        } else if b == OPEN_BRACE {
            Ok((TokenType::OpenBraces, 1))
        } else if b == CLOSE_BRACE {
            Ok((TokenType::CloseBraces, 1))
        } else if b == STAR {
            Ok((TokenType::Asterisk, 1))
        } else if b == SLASH {
            Ok((TokenType::ForwardSlash, 1))
        } else if b == NEWLINE {
            Ok((TokenType::Newline, 1))
        } else if b == CARET {
            Ok((TokenType::Carat, 1))
        } else if b == PLUS {
            Ok((TokenType::Plus, 1))
        } else if b == OPEN_BRACKET {
            Ok((TokenType::OpenSqBracket, 1))
        } else if b == CLOSE_BRACKET {
            Ok((TokenType::CloseSqBracket, 1))
        } else if b == BACKSLASH {
            Ok((TokenType::BackSlash, 1))
        } else if b == PIPE {
            if followed_by(src, at, PIPE) {
                Ok((TokenType::Or, 2))
            } else {
                Ok((TokenType::CatchAll(seq![b as char]), 1))
            }
        } else if b == AMPERSAND {
            if followed_by(src, at, AMPERSAND) {
                Ok((TokenType::And, 2))
            } else {
                Ok((TokenType::CatchAll(seq![b as char]), 1))
            }
        } else if b == EQUAL {
            if followed_by(src, at, EQUAL) {
                Ok((TokenType::DoubleEquals, 2))
            } else {
                Ok((TokenType::Equals, 1))
            }
        } else if b == BANG {
            if followed_by(src, at, EQUAL) {
                Ok((TokenType::NotEquals, 2))
            } else {
                Ok((TokenType::Not, 1))
            }
        } else if b == GREATER {
            if followed_by(src, at, EQUAL) {
                Ok((TokenType::Ge, 2))
            } else {
                Ok((TokenType::GreaterThan, 1))
            }
        } else if b == LESS {
            if followed_by(src, at, EQUAL) {
                Ok((TokenType::Le, 2))
            } else {
                Ok((TokenType::LessThan, 1))
            }
        } else if b == HASH {
            Ok((TokenType::LineComment, run_length(src, at, ByteClass::Except(NEWLINE))))
        } else if b == DOUBLE_QUOTE || b == QUOTE {
            string_at(src, at, b)
        } else if b == DOLLAR {
            let n = run_length(src, at + 1, ByteClass::Alphanumeric);
            if n == 0 {
                Err(ErrorKind::Lexical)
            } else {
                Ok(
                    (
                        TokenType::EscapedIdentifier(ascii_text(src.subrange(at + 1, at + 1 + n))),
                        n + 1,
                    ),
                )
            }
        } else if is_blank(b) {
            Ok((TokenType::Whitespace, run_length(src, at, ByteClass::Blank)))
        } else if is_digit(b) {
            number_at(src, at)
        } else if is_alphabetic(b) {
            let n = run_length(src, at, ByteClass::Word);
            Ok((TokenType::Identifier(ascii_text(src.subrange(at, at + n))), n))
        } else if b < 128 {
            Ok((TokenType::CatchAll(seq![b as char]), 1))
        } else {
            Err(ErrorKind::Lexical)
        }
    }
}

/// The first token from `at` on that is no comment, with the position behind
/// it.
pub open spec fn next_at(src: Seq<u8>, at: int) -> Result<(TokenType<Seq<char>>, int), ErrorKind>
    decreases src.len() - at,
{
    match token_at(src, at) {
        Err(e) => Err(e),
        Ok((token, n)) => if token is LineComment && 0 < n <= src.len() - at {
            next_at(src, at + n)
        } else {
            Ok((token, at + n))
        },
    }
}

/// The first token from `at` on that is neither a comment nor whitespace, with
/// the position behind it.
pub open spec fn next_token_at(src: Seq<u8>, at: int) -> Result<
    (TokenType<Seq<char>>, int),
    ErrorKind,
>
    decreases src.len() - at,
{
    match next_at(src, at) {
        Err(e) => Err(e),
        Ok((token, to)) => if token is Whitespace && at < to <= src.len() {
            next_token_at(src, to)
        } else {
            Ok((token, to))
        },
    }
}

/// The `distance`-th token from `at` on that is neither a comment nor
/// whitespace, or the end of input where fewer are left.
pub open spec fn lookahead_at(src: Seq<u8>, at: int, distance: nat) -> Result<
    TokenType<Seq<char>>,
    ErrorKind,
>
    decreases distance,
{
    match next_token_at(src, at) {
        Err(e) => Err(e),
        Ok((token, to)) => if distance <= 1 || token is EOF {
            Ok(token)
        } else {
            lookahead_at(src, to, (distance - 1) as nat)
        },
    }
}

/// A token takes at least one byte, unless it is the end of input, and never
/// more than are left.
pub proof fn lemma_token_at_length(src: Seq<u8>, at: int)
    requires
        0 <= at <= src.len(),
    ensures
        match token_at(src, at) {
            Ok((token, n)) => at + n <= src.len() && (n == 0 <==> token is EOF) && (token is EOF
                <==> at == src.len()),
            Err(_) => at < src.len(),
        },
{
    if at < src.len() {
        lemma_run_length_bound(src, at, ByteClass::Except(NEWLINE));
        lemma_run_length_bound(src, at, ByteClass::Blank);
        lemma_run_length_bound(src, at, ByteClass::Digit);
        lemma_run_length_bound(src, at, ByteClass::Word);
        lemma_run_length_bound(src, at + 1, ByteClass::Alphanumeric);
        lemma_run_length_bound(src, at + 1, ByteClass::Except(QUOTE));
        lemma_run_length_bound(src, at + 1, ByteClass::Except(DOUBLE_QUOTE));
        let whole = run_length(src, at, ByteClass::Digit);
        if at + whole + 1 <= src.len() {
            lemma_run_length_bound(src, at + whole + 1, ByteClass::Digit);
        }
    }
}

/// A cursor over the bytes of a source text that hands out its tokens.
pub struct Lexer {
    src: Vec<u8>,
    cursor: usize,
}

impl Lexer {
    #[verifier::type_invariant]
    spec fn in_bounds(&self) -> bool {
        self.cursor <= self.src.len()
    }

    /// The bytes of the source text.
    pub closed spec fn source(&self) -> Seq<u8> {
        self.src@
    }

    /// The offset of the next byte to read.
    pub closed spec fn position(&self) -> int {
        self.cursor as int
    }

    /// A lexer at the start of the given text.
    pub fn new(src: &str) -> (l: Lexer)
        ensures
            l.source() == src.spec_bytes(),
            l.position() == 0,
    {
        Lexer { src: src.as_bytes_vec(), cursor: 0 }
    }

    /// The offset of the next byte to read.
    pub fn offset(&self) -> (r: usize)
        ensures
            r == self.position(),
            r <= self.source().len(),
    {
        proof {
            use_type_invariant(self);
        }
        self.cursor
    }

    /// The byte `distance` bytes ahead of the cursor, if the input reaches
    /// that far.
    pub fn peak_byte(&self, distance: usize) -> (r: Option<u8>)
        ensures
            r == if self.position() + distance < self.source().len() {
                Some(self.source()[self.position() + distance])
            } else {
                None
            },
    {
        proof {
            use_type_invariant(self);
        }
        if distance < self.src.len() - self.cursor {
            Some(self.src[self.cursor + distance])
        } else {
            None
        }
    }

    /// Whether the byte `distance` bytes ahead of the cursor is `target`.
    pub fn peaked_byte_is(&self, target: u8, distance: usize) -> (r: bool)
        ensures
            r == (self.position() + distance < self.source().len() && self.source()[self.position()
                + distance] == target),
    {
        match self.peak_byte(distance) {
            Some(b) => b == target,
            None => false,
        }
    }

    /// The longest run of bytes of a class that starts `offset` bytes ahead
    /// of the cursor, with its length.
    pub fn read_while(&self, class: ByteClass, offset: usize) -> (r: (Vec<u8>, usize))
        ensures
            r.1 == run_length(self.source(), self.position() + offset, class),
            r.0@.len() == r.1,
            self.position() + offset <= self.source().len() ==> r.0@ == self.source().subrange(
                self.position() + offset,
                self.position() + offset + r.1,
            ),
            forall|i: int| 0 <= i < r.0@.len() ==> class.holds(#[trigger] r.0@[i]),
    {
        proof {
            use_type_invariant(self);
        }
        let mut bytes: Vec<u8> = Vec::new();
        if offset > self.src.len() - self.cursor {
            return (bytes, 0);
        }
        let start: usize = self.cursor + offset;
        let mut i: usize = start;
        proof {
            assert(bytes@ =~= self.src@.subrange(start as int, i as int));
        }
        while i < self.src.len() && class.contains(self.src[i])
            invariant
                start <= i <= self.src.len(),
                bytes@ == self.src@.subrange(start as int, i as int),
                run_length(self.src@, start as int, class) == (i - start) + run_length(
                    self.src@,
                    i as int,
                    class,
                ),
                forall|k: int| 0 <= k < bytes@.len() ==> class.holds(#[trigger] bytes@[k]),
            decreases self.src.len() - i,
        {
            bytes.push(self.src[i]);
            i = i + 1;
            proof {
                assert(bytes@ =~= self.src@.subrange(start as int, i as int));
            }
        }
        (bytes, i - start)
    }

    /// The text of ASCII bytes.
    fn ascii_string(bytes: Vec<u8>) -> (r: Result<String, Error>)
        requires
            all_ascii(bytes@),
        ensures
            r is Ok,
            r->Ok_0@ == ascii_text(bytes@),
    {
        proof {
            lemma_ascii_text(bytes@);
        }
        match string_from_utf8(bytes) {
            Some(s) => Ok(s),
            None => Err(Error::new(ErrorKind::Lexical, "invalid text")),
        }
    }

    /// The number that a run of digits writes, if it fits the machine word.
    fn read_integer(digits: &Vec<u8>) -> (r: Option<usize>)
        requires
            forall|i: int| 0 <= i < digits@.len() ==> is_digit(#[trigger] digits@[i]),
        ensures
            r is Some <==> decimal_value(digits@) <= usize::MAX,
            r is Some ==> r->0 == decimal_value(digits@),
    {
        let mut value: usize = 0;
        let mut i: usize = 0;
        while i < digits.len()
            invariant
                i <= digits.len(),
                forall|k: int| 0 <= k < digits@.len() ==> is_digit(#[trigger] digits@[k]),
                value == decimal_value(digits@.subrange(0, i as int)),
            decreases digits.len() - i,
        {
            let d: usize = (digits[i] - 48) as usize;
            proof {
                let longer = digits@.subrange(0, i + 1);
                assert(longer.drop_last() =~= digits@.subrange(0, i as int));
                assert(longer.last() == digits@[i as int]);
                Self::lemma_decimal_value_grows(digits@, i + 1);
            }
            if value > (usize::MAX - d) / 10 {
                proof {
                    assert(value * 10 + d > usize::MAX) by (nonlinear_arith)
                        requires
                            value > (usize::MAX - d) / 10,
                            d <= usize::MAX,
                    ;
                }
                return None;
            }
            assert(value * 10 + d <= usize::MAX) by (nonlinear_arith)
                requires
                    value <= (usize::MAX - d) / 10,
                    d <= usize::MAX,
            ;
            value = value * 10 + d;
            i = i + 1;
        }
        proof {
            assert(digits@.subrange(0, i as int) =~= digits@);
        }
        Some(value)
    }

    /// A longer run of digits never writes a smaller number.
    proof fn lemma_decimal_value_grows(digits: Seq<u8>, k: int)
        requires
            0 <= k <= digits.len(),
            forall|i: int| 0 <= i < digits.len() ==> is_digit(#[trigger] digits[i]),
        ensures
            decimal_value(digits.subrange(0, k)) <= decimal_value(digits),
        decreases digits.len() - k,
    {
        if k == digits.len() {
            assert(digits.subrange(0, k) =~= digits);
        } else {
            let longer = digits.subrange(0, k + 1);
            assert(longer.drop_last() =~= digits.subrange(0, k));
            Self::lemma_decimal_value_grows(digits, k + 1);
        }
    }

    /// The token that starts with the digit under the cursor.
    fn read_digit(&self) -> (r: Result<(TokenType, usize), Error>)
        requires
            self.position() < self.source().len(),
        ensures
            match number_at(self.source(), self.position()) {
                Ok((token, n)) => r is Ok && r->Ok_0.0@ == token && r->Ok_0.1 == n,
                Err(kind) => r is Err && r->Err_0@ == kind,
            },
    {
        proof {
            use_type_invariant(self);
            lemma_run_length_bound(self.src@, self.cursor as int, ByteClass::Digit);
        }
        let (whole_bytes, whole) = self.read_while(ByteClass::Digit, 0);
        if self.peaked_byte_is(DOT, whole) {
            proof {
                lemma_run_length_bound(self.src@, self.cursor + whole + 1, ByteClass::Digit);
            }
            let (fraction_bytes, fraction) = self.read_while(ByteClass::Digit, whole + 1);
            if fraction > 0 {
                let mut bytes = whole_bytes;
                bytes.push(DOT);
                let mut rest = fraction_bytes;
                bytes.append(&mut rest);
                proof {
                    assert(bytes@ =~= self.src@.subrange(
                        self.cursor as int,
                        self.cursor + whole + 1 + fraction,
                    ));
                    assert forall|i: int| 0 <= i < bytes@.len() implies #[trigger] bytes@[i]
                        < 128 by {
                        if i < whole {
                            assert(ByteClass::Digit.holds(whole_bytes@[i]));
                        } else if i > whole {
                            assert(ByteClass::Digit.holds(fraction_bytes@[i - whole - 1]));
                        }
                    }
                }
                let text = Self::ascii_string(bytes)?;
                return Ok((TokenType::Decimal(text), whole + 1 + fraction));
            }
        }
        match Self::read_integer(&whole_bytes) {
            Some(value) => Ok((TokenType::Integer(value), whole)),
            None => Err(Error::new(ErrorKind::Lexical, "number out of range")),
        }
    }

    /// The identifier that starts with the letter under the cursor.
    fn read_identifier(&self) -> (r: Result<(TokenType, usize), Error>)
        ensures
            r is Ok,
            r->Ok_0.1 == run_length(self.source(), self.position(), ByteClass::Word),
            r->Ok_0.0@ == TokenType::Identifier(
                ascii_text(
                    self.source().subrange(self.position(), self.position() + r->Ok_0.1),
                ),
            ),
    {
        proof {
            use_type_invariant(self);
            lemma_run_length_bound(self.src@, self.cursor as int, ByteClass::Word);
        }
        let (bytes, bytes_read) = self.read_while(ByteClass::Word, 0);
        proof {
            assert forall|i: int| 0 <= i < bytes@.len() implies #[trigger] bytes@[i] < 128 by {
                assert(ByteClass::Word.holds(bytes@[i]));
            }
        }
        let text = Self::ascii_string(bytes)?;
        Ok((TokenType::Identifier(text), bytes_read))
    }

    /// `=` or `==`.
    fn read_equals(&self) -> (r: (TokenType, usize))
        ensures
            r.0@ == if followed_by(self.source(), self.position(), EQUAL) {
                TokenType::<Seq<char>>::DoubleEquals
            } else {
                TokenType::<Seq<char>>::Equals
            },
            r.1 == if followed_by(self.source(), self.position(), EQUAL) {
                2usize
            } else {
                1usize
            },
    {
        if self.peaked_byte_is(EQUAL, 1) {
            (TokenType::DoubleEquals, 2)
        } else {
            (TokenType::Equals, 1)
        }
    }

    /// `!` or `!=`.
    fn read_not_equals(&self) -> (r: (TokenType, usize))
        ensures
            r.0@ == if followed_by(self.source(), self.position(), EQUAL) {
                TokenType::<Seq<char>>::NotEquals
            } else {
                TokenType::<Seq<char>>::Not
            },
            r.1 == if followed_by(self.source(), self.position(), EQUAL) {
                2usize
            } else {
                1usize
            },
    {
        if self.peaked_byte_is(EQUAL, 1) {
            (TokenType::NotEquals, 2)
        } else {
            (TokenType::Not, 1)
        }
    }

    /// `<` or `<=`.
    fn read_left_arrow(&self) -> (r: (TokenType, usize))
        ensures
            r.0@ == if followed_by(self.source(), self.position(), EQUAL) {
                TokenType::<Seq<char>>::Le
            } else {
                TokenType::<Seq<char>>::LessThan
            },
            r.1 == if followed_by(self.source(), self.position(), EQUAL) {
                2usize
            } else {
                1usize
            },
    {
        if self.peaked_byte_is(EQUAL, 1) {
            (TokenType::Le, 2)
        } else {
            (TokenType::LessThan, 1)
        }
    }

    /// `>` or `>=`.
    fn read_right_arrow(&self) -> (r: (TokenType, usize))
        ensures
            r.0@ == if followed_by(self.source(), self.position(), EQUAL) {
                TokenType::<Seq<char>>::Ge
            } else {
                TokenType::<Seq<char>>::GreaterThan
            },
            r.1 == if followed_by(self.source(), self.position(), EQUAL) {
                2usize
            } else {
                1usize
            },
    {
        if self.peaked_byte_is(EQUAL, 1) {
            (TokenType::Ge, 2)
        } else {
            (TokenType::GreaterThan, 1)
        }
    }

    /// The token of one byte that nothing else claims.
    fn read_catch_all(byte: u8) -> (r: Result<(TokenType, usize), Error>)
        ensures
            byte < 128 ==> r is Ok && r->Ok_0.0@ == TokenType::CatchAll(seq![byte as char])
                && r->Ok_0.1 == 1,
            byte >= 128 ==> r is Err && r->Err_0@ == ErrorKind::Lexical,
    {
        if byte < 128 {
            let mut bytes: Vec<u8> = Vec::new();
            bytes.push(byte);
            proof {
                assert(ascii_text(bytes@) =~= seq![byte as char]);
            }
            let text = Self::ascii_string(bytes)?;
            Ok((TokenType::CatchAll(text), 1))
        } else {
            Err(Error::new(ErrorKind::Lexical, "invalid character"))
        }
    }

    /// `&&`, or `&` as a token of its own.
    fn read_and(&self) -> (r: Result<(TokenType, usize), Error>)
        ensures
            r is Ok,
            r->Ok_0.0@ == if followed_by(self.source(), self.position(), AMPERSAND) {
                TokenType::<Seq<char>>::And
            } else {
                TokenType::CatchAll(seq![AMPERSAND as char])
            },
            r->Ok_0.1 == if followed_by(self.source(), self.position(), AMPERSAND) {
                2usize
            } else {
                1usize
            },
    {
        if self.peaked_byte_is(AMPERSAND, 1) {
            Ok((TokenType::And, 2))
        } else {
            Self::read_catch_all(AMPERSAND)
        }
    }

    /// `||`, or `|` as a token of its own.
    fn read_pipe(&self) -> (r: Result<(TokenType, usize), Error>)
        ensures
            r is Ok,
            r->Ok_0.0@ == if followed_by(self.source(), self.position(), PIPE) {
                TokenType::<Seq<char>>::Or
            } else {
                TokenType::CatchAll(seq![PIPE as char])
            },
            r->Ok_0.1 == if followed_by(self.source(), self.position(), PIPE) {
                2usize
            } else {
                1usize
            },
    {
        if self.peaked_byte_is(PIPE, 1) {
            Ok((TokenType::Or, 2))
        } else {
            Self::read_catch_all(PIPE)
        }
    }

    /// The string that the quote under the cursor opens.
    fn read_string(&self, term: u8) -> (r: Result<(TokenType, usize), Error>)
        requires
            self.position() < self.source().len(),
            term == QUOTE || term == DOUBLE_QUOTE,
        ensures
            match string_at(self.source(), self.position(), term) {
                Ok((token, n)) => r is Ok && r->Ok_0.0@ == token && r->Ok_0.1 == n,
                Err(kind) => r is Err && r->Err_0@ == kind,
            },
    {
        proof {
            use_type_invariant(self);
            lemma_run_length_bound(self.src@, self.cursor + 1, ByteClass::Except(term));
        }
        let (bytes, bytes_read) = self.read_while(ByteClass::Except(term), 1);
        let length: usize = if bytes_read + 1 < self.src.len() - self.cursor {
            bytes_read + 2
        } else {
            bytes_read + 1
        };
        match string_from_utf8(bytes) {
            Some(text) => if term == QUOTE {
                Ok((TokenType::String(text), length))
            } else {
                Ok((TokenType::TemplateString(text), length))
            },
            None => Err(Error::new(ErrorKind::Lexical, "invalid text in string")),
        }
    }

    /// The name that the `$` under the cursor introduces.
    fn read_escaped_identifier(&self) -> (r: Result<(TokenType, usize), Error>)
        requires
            self.position() < self.source().len(),
        ensures
            ({
                let n = run_length(self.source(), self.position() + 1, ByteClass::Alphanumeric);
                if n == 0 {
                    r is Err && r->Err_0@ == ErrorKind::Lexical
                } else {
                    r is Ok && r->Ok_0.1 == n + 1 && r->Ok_0.0@ == TokenType::EscapedIdentifier(
                        ascii_text(
                            self.source().subrange(self.position() + 1, self.position() + 1 + n),
                        ),
                    )
                }
            }),
    {
        proof {
            use_type_invariant(self);
            lemma_run_length_bound(self.src@, self.cursor + 1, ByteClass::Alphanumeric);
        }
        let (bytes, bytes_read) = self.read_while(ByteClass::Alphanumeric, 1);
        if bytes_read == 0 {
            return Err(Error::new(ErrorKind::Lexical, "expected a variable"));
        }
        proof {
            assert forall|i: int| 0 <= i < bytes@.len() implies #[trigger] bytes@[i] < 128 by {
                assert(ByteClass::Alphanumeric.holds(bytes@[i]));
            }
        }
        let text = Self::ascii_string(bytes)?;
        Ok((TokenType::EscapedIdentifier(text), bytes_read + 1))
    }

    /// The comment that the `#` under the cursor opens: it runs up to the
    /// newline, which it leaves.
    fn read_line_comment(&self) -> (r: (TokenType, usize))
        ensures
            r.0@ == TokenType::<Seq<char>>::LineComment,
            r.1 == run_length(self.source(), self.position(), ByteClass::Except(NEWLINE)),
    {
        let (_, bytes_read) = self.read_while(ByteClass::Except(NEWLINE), 0);
        (TokenType::LineComment, bytes_read)
    }

    /// The run of blanks under the cursor, as one token.
    fn read_whitespace(&self) -> (r: (TokenType, usize))
        ensures
            r.0@ == TokenType::<Seq<char>>::Whitespace,
            r.1 == run_length(self.source(), self.position(), ByteClass::Blank),
    {
        let (_, bytes_read) = self.read_while(ByteClass::Blank, 0);
        (TokenType::Whitespace, bytes_read)
    }

    /// The token under the cursor and the number of bytes it takes. The
    /// cursor stays.
    pub fn peak(&self) -> (r: Result<(TokenType, usize), Error>)
        ensures
            match token_at(self.source(), self.position()) {
                Ok((token, n)) => r is Ok && r->Ok_0.0@ == token && r->Ok_0.1 == n
                    && self.position() + n <= self.source().len(),
                Err(kind) => r is Err && r->Err_0@ == kind,
            },
    {
        proof {
            use_type_invariant(self);
            lemma_token_at_length(self.src@, self.cursor as int);
        }
        let b = match self.peak_byte(0) {
            Some(b) => b,
            None => return Ok((TokenType::EOF, 0)),
        };
        if b == MINUS {
            Ok((TokenType::Minus, 1))
        } else if b == COMMA {
            Ok((TokenType::Comma, 1))
        } else if b == SEMICOLON {
            Ok((TokenType::SemiColon, 1))
        } else if b == DOT {
            Ok((TokenType::Dot, 1))
        } else if b == OPEN_PAREN {
            Ok((TokenType::OpenParen, 1))
        } else if b == CLOSE_PAREN {
            Ok((TokenType::CloseParen, 1))
        } else if b == OPEN_BRACE {
            Ok((TokenType::OpenBraces, 1))
        } else if b == CLOSE_BRACE {
            Ok((TokenType::CloseBraces, 1))
        } else if b == STAR {
            Ok((TokenType::Asterisk, 1))
        } else if b == SLASH {
            Ok((TokenType::ForwardSlash, 1))
        } else if b == NEWLINE {
            Ok((TokenType::Newline, 1))
        } else if b == CARET {
            Ok((TokenType::Carat, 1))
        } else if b == PLUS {
            Ok((TokenType::Plus, 1))
        } else if b == OPEN_BRACKET {
            Ok((TokenType::OpenSqBracket, 1))
        } else if b == CLOSE_BRACKET {
            Ok((TokenType::CloseSqBracket, 1))
        } else if b == BACKSLASH {
            Ok((TokenType::BackSlash, 1))
        } else if b == PIPE {
            self.read_pipe()
        } else if b == AMPERSAND {
            self.read_and()
        } else if b == EQUAL {
            Ok(self.read_equals())
        } else if b == BANG {
            Ok(self.read_not_equals())
        } else if b == GREATER {
            Ok(self.read_right_arrow())
        } else if b == LESS {
            Ok(self.read_left_arrow())
        } else if b == HASH {
            Ok(self.read_line_comment())
        } else if b == DOUBLE_QUOTE || b == QUOTE {
            self.read_string(b)
        } else if b == DOLLAR {
            self.read_escaped_identifier()
        } else if is_whitespace(b) {
            Ok(self.read_whitespace())
        } else if ByteClass::Digit.contains(b) {
            self.read_digit()
        } else if (65 <= b && b <= 90) || (97 <= b && b <= 122) {
            self.read_identifier()
        } else {
            Self::read_catch_all(b)
        }
    }

    /// Takes the next token that is no comment. On an error the cursor
    /// stays.
    pub fn next(&mut self) -> (r: Result<TokenType, Error>)
        ensures
            final(self).source() == old(self).source(),
            match next_at(old(self).source(), old(self).position()) {
                Ok((token, to)) => r is Ok && r->Ok_0@ == token && final(self).position() == to,
                Err(kind) => r is Err && r->Err_0@ == kind && final(self).position() == old(
                    self,
                ).position(),
            },
    {
        proof {
            use_type_invariant(&*self);
        }
        let start: usize = self.cursor;
        loop
            invariant
                self.src@ == old(self).src@,
                start == old(self).cursor,
                start <= self.cursor <= self.src.len(),
                next_at(self.src@, start as int) == next_at(self.src@, self.cursor as int),
            decreases self.src.len() - self.cursor,
        {
            proof {
                lemma_token_at_length(self.src@, self.cursor as int);
            }
            match self.peak() {
                Err(e) => {
                    self.cursor = start;
                    return Err(e);
                },
                Ok((token, bytes_read)) => {
                    self.cursor = self.cursor + bytes_read;
                    if !matches!(token, TokenType::LineComment) {
                        return Ok(token);
                    }
                },
            }
        }
    }

    /// Takes the next token that is neither a comment nor whitespace. On an
    /// error the cursor stays.
    pub fn next_token(&mut self) -> (r: Result<TokenType, Error>)
        ensures
            final(self).source() == old(self).source(),
            match next_token_at(old(self).source(), old(self).position()) {
                Ok((token, to)) => r is Ok && r->Ok_0@ == token && final(self).position() == to,
                Err(kind) => r is Err && r->Err_0@ == kind && final(self).position() == old(
                    self,
                ).position(),
            },
    {
        proof {
            use_type_invariant(&*self);
        }
        let start: usize = self.cursor;
        loop
            invariant
                self.src@ == old(self).src@,
                start == old(self).cursor,
                start <= self.cursor <= self.src.len(),
                next_token_at(self.src@, start as int) == next_token_at(
                    self.src@,
                    self.cursor as int,
                ),
            decreases self.src.len() - self.cursor,
        {
            proof {
                Self::lemma_next_at_advances(self.src@, self.cursor as int);
            }
            let next = self.next();
            proof {
                use_type_invariant(&*self);
            }
            match next {
                Err(e) => {
                    self.cursor = start;
                    return Err(e);
                },
                Ok(token) => {
                    if !matches!(token, TokenType::Whitespace) {
                        return Ok(token);
                    }
                },
            }
        }
    }

    /// Takes the next token that is no comment, whitespace included: the
    /// fragments of a command are told apart by it.
    pub fn next_cmd_token(&mut self) -> (r: Result<TokenType, Error>)
        ensures
            final(self).source() == old(self).source(),
            match next_at(old(self).source(), old(self).position()) {
                Ok((token, to)) => r is Ok && r->Ok_0@ == token && final(self).position() == to,
                Err(kind) => r is Err && r->Err_0@ == kind && final(self).position() == old(
                    self,
                ).position(),
            },
    {
        self.next()
    }

    /// The `distance`-th token ahead that is neither a comment nor
    /// whitespace, or the end of input where fewer are left. The cursor
    /// stays.
    pub fn lookahead(&mut self, distance: usize) -> (r: Result<TokenType, Error>)
        requires
            distance >= 1,
        ensures
            final(self).source() == old(self).source(),
            final(self).position() == old(self).position(),
            match lookahead_at(old(self).source(), old(self).position(), distance as nat) {
                Ok(token) => r is Ok && r->Ok_0@ == token,
                Err(kind) => r is Err && r->Err_0@ == kind,
            },
    {
        proof {
            use_type_invariant(&*self);
        }
        let snapshot: usize = self.cursor;
        let mut left: usize = distance;
        loop
            invariant
                self.src@ == old(self).src@,
                snapshot == old(self).cursor,
                snapshot <= self.src.len(),
                self.cursor <= self.src.len(),
                left >= 1,
                lookahead_at(self.src@, snapshot as int, distance as nat) == lookahead_at(
                    self.src@,
                    self.cursor as int,
                    left as nat,
                ),
            decreases left,
        {
            let next = self.next_token();
            proof {
                use_type_invariant(&*self);
            }
            match next {
                Err(e) => {
                    self.cursor = snapshot;
                    return Err(e);
                },
                Ok(token) => {
                    if left <= 1 || matches!(token, TokenType::EOF) {
                        self.cursor = snapshot;
                        return Ok(token);
                    }
                    left = left - 1;
                },
            }
        }
    }

    /// The next token that is no comment lies ahead of the position it is
    /// read from, and within the input.
    pub proof fn lemma_next_at_advances(src: Seq<u8>, at: int)
        requires
            0 <= at <= src.len(),
        ensures
            match next_at(src, at) {
                Ok((token, to)) => at <= to <= src.len() && (token is EOF ==> to == src.len())
                    && (!(token is EOF) ==> at < to) && !(token is LineComment),
                Err(_) => true,
            },
        decreases src.len() - at,
    {
        lemma_token_at_length(src, at);
        match token_at(src, at) {
            Err(_) => {},
            Ok((token, n)) => {
                if token is LineComment && 0 < n <= src.len() - at {
                    Self::lemma_next_at_advances(src, at + n);
                }
            },
        }
    }
}

} // verus!
