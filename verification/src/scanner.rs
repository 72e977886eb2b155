//! The scanner: turns source text into tokens, one pull at a time. Skips
//! whitespace and both comment forms (line comments and nestable block
//! comments), counts lines, and reports an unexpected character or an
//! unterminated string as a scanner error.

use vstd::prelude::*;
use vstd::string::StringExecFns;

use crate::error::{Error, ErrorKind};
use crate::text::{push_char, str_to_chars};
use crate::token::{Token, TokenType};

verus! {

/// Whether a character has the Unicode white-space property, as
/// `char::is_whitespace` decides it.
pub uninterp spec fn white_of(c: char) -> bool;

/// Whether a character is Unicode alphanumeric, as `char::is_alphanumeric`
/// decides it.
pub uninterp spec fn alnum_of(c: char) -> bool;

/// The Unicode lowercasing of a piece of text, as `str::to_lowercase`
/// computes it.
pub uninterp spec fn lower_of(s: Seq<char>) -> Seq<char>;

/// Relies on `char::is_whitespace`: a pure function of the character.
#[verifier::external_body]
fn is_whitespace_char(c: char) -> (r: bool)
    ensures
        r == white_of(c),
{
    c.is_whitespace()
}

/// Relies on `char::is_alphanumeric`: a pure function of the character.
#[verifier::external_body]
fn is_alphanumeric_char(c: char) -> (r: bool)
    ensures
        r == alnum_of(c),
{
    c.is_alphanumeric()
}

/// Relies on `str::to_lowercase`: a pure function of the characters alone.
#[verifier::external_body]
fn lowercase(s: &str) -> (r: String)
    ensures
        r@ == lower_of(s@),
{
    s.to_lowercase()
}

/// A decimal digit.
pub open spec fn spec_is_digit(c: char) -> bool {
    '0' <= c <= '9'
}

/// A character that may stand in an identifier: alphanumeric or underscore.
pub open spec fn spec_is_identifier_char(c: char) -> bool {
    alnum_of(c) || c == '_'
}

fn is_digit_char(c: char) -> (r: bool)
    ensures
        r == spec_is_digit(c),
{
    '0' <= c && c <= '9'
}

/// Whether a character may stand in an identifier.
pub fn is_identifier_char(c: char) -> (r: bool)
    ensures
        r == spec_is_identifier_char(c),
{
    is_alphanumeric_char(c) || c == '_'
}

/// Owns the source text and hands out pull cursors over it.
#[derive(Debug)]
pub struct Scanner {
    pub source: String,
}

impl Scanner {
    pub fn from_str(source: &str) -> (s: Scanner)
        ensures
            s.source@ == source@,
    {
        Scanner { source: String::from_str(source) }
    }

    /// A fresh cursor at the start of the source, on line one.
    pub fn tokens(&self) -> (it: ScannerIter)
        ensures
            it.source@ == self.source@,
            it.char_index == 0,
            it.line == 1,
            it.wf(),
    {
        ScannerIter::new(str_to_chars(self.source.as_str()))
    }

    pub fn source_ref(&self) -> (r: &str)
        ensures
            r@ == self.source@,
    {
        self.source.as_str()
    }
}

/// A pull cursor over the characters of one piece of source text.
pub struct ScannerIter {
    pub source: Vec<char>,
    pub char_index: usize,
    pub line: usize,
}

impl ScannerIter {
    /// The cursor stands on or after the first character and on or before
    /// the end of the source.
    pub open spec fn wf(&self) -> bool {
        self.char_index <= self.source@.len()
    }

    fn new(source: Vec<char>) -> (it: ScannerIter)
        ensures
            it.source@ == source@,
            it.char_index == 0,
            it.line == 1,
            it.wf(),
    {
        ScannerIter { source, char_index: 0, line: 1 }
    }

    /// Steps back over the character that was just read.
    fn buffer_char(&mut self, c: char)
        requires
            old(self).wf(),
            old(self).char_index > 0,
            c == old(self).source@[old(self).char_index - 1],
        ensures
            final(self).wf(),
            final(self).source == old(self).source,
            final(self).line == old(self).line,
            final(self).char_index == old(self).char_index - 1,
    {
        self.char_index = self.char_index - 1;
    }

    /// The next character, or `None` at the end of the source.
    fn next_char(&mut self) -> (r: Option<char>)
        requires
            old(self).wf(),
        ensures
            final(self).wf(),
            final(self).source == old(self).source,
            final(self).line == old(self).line,
            old(self).char_index < old(self).source@.len() ==> r == Some(
                old(self).source@[old(self).char_index as int],
            ) && final(self).char_index == old(self).char_index + 1,
            old(self).char_index == old(self).source@.len() ==> r is None && final(self).char_index == old(
                self,
            ).char_index,
    {
        if self.char_index < self.source.len() {
            let c = self.source[self.char_index];
            self.char_index = self.char_index + 1;
            Some(c)
        } else {
            None
        }
    }

    /// The next token of the source: `Ok(None)` at the end of the source,
    /// an error for an unexpected character or an unterminated string.
    pub fn next_token(&mut self) -> (r: Result<Option<Token>, Error>)
        requires
            old(self).wf(),
        ensures
            final(self).wf(),
            final(self).source == old(self).source,
            final(self).char_index >= old(self).char_index,
            final(self).line >= old(self).line,
            r matches Ok(Some(_)) ==> final(self).char_index > old(self).char_index,
            r matches Ok(None) ==> final(self).char_index == final(self).source@.len(),
            r is Err ==> r->Err_0.kind is ScannerError,
    {
        loop
            invariant
                self.wf(),
                self.source == old(self).source,
                self.char_index >= old(self).char_index,
                self.line >= old(self).line,
            decreases self.source@.len() - self.char_index,
        {
            let c = self.next_char();
            match c {
                None => {
                    return Ok(None);
                },
                Some('(') => {
                    return Ok(Some(Token::new(TokenType::LeftParen, None, self.line)));
                },
                Some(')') => {
                    return Ok(Some(Token::new(TokenType::RightParen, None, self.line)));
                },
                Some('{') => {
                    return Ok(Some(Token::new(TokenType::LeftBrace, None, self.line)));
                },
                Some('}') => {
                    return Ok(Some(Token::new(TokenType::RightBrace, None, self.line)));
                },
                Some('.') => {
                    return Ok(Some(Token::new(TokenType::Dot, None, self.line)));
                },
                Some('-') => {
                    return Ok(Some(Token::new(TokenType::Minus, None, self.line)));
                },
                Some('+') => {
                    return Ok(Some(Token::new(TokenType::Plus, None, self.line)));
                },
                Some(';') => {
                    return Ok(Some(Token::new(TokenType::Semicolon, None, self.line)));
                },
                Some('*') => {
                    return Ok(Some(Token::new(TokenType::Star, None, self.line)));
                },
                Some(',') => {
                    return Ok(Some(Token::new(TokenType::Comma, None, self.line)));
                },
                Some('?') => {
                    return Ok(Some(Token::new(TokenType::Query, None, self.line)));
                },
                Some(':') => {
                    return Ok(Some(Token::new(TokenType::Colon, None, self.line)));
                },
                Some('!') => {
                    return Ok(Some(self.scan_op_equal(TokenType::Bang, TokenType::BangEqual)));
                },
                Some('=') => {
                    return Ok(Some(self.scan_op_equal(TokenType::Equal, TokenType::EqualEqual)));
                },
                Some('>') => {
                    return Ok(
                        Some(self.scan_op_equal(TokenType::Greater, TokenType::GreaterEqual)),
                    );
                },
                Some('<') => {
                    return Ok(Some(self.scan_op_equal(TokenType::Less, TokenType::LessEqual)));
                },
                Some('/') => {
                    let token = self.scan_slash();
                    match token {
                        Some(t) => {
                            return Ok(Some(t));
                        },
                        None => {},
                    }
                },
                Some('"') => {
                    match self.scan_string() {
                        Ok(t) => {
                            return Ok(Some(t));
                        },
                        Err(e) => {
                            return Err(e);
                        },
                    }
                },
                Some(other) => {
                    if is_digit_char(other) {
                        return Ok(Some(self.scan_number(other)));
                    } else if is_identifier_char(other) {
                        return Ok(Some(self.scan_identifier(other)));
                    } else if is_whitespace_char(other) {
                        if other == '\n' {
                            if self.line < usize::MAX {
                                self.line = self.line + 1;
                            }
                        }
                    } else {
                        let mut message = String::from_str("Unexpected character \"");
                        push_char(&mut message, other);
                        message.append("\"");
                        return Err(
                            Error::new(ErrorKind::ScannerError { line: self.line, message }),
                        );
                    }
                },
            }
        }
    }

    /// After an operator character: reads one more character and yields the
    /// compound kind when it is `=`, else steps back and yields the plain
    /// kind.
    fn scan_op_equal(&mut self, op: TokenType, op_equal: TokenType) -> (t: Token)
        requires
            old(self).wf(),
        ensures
            final(self).wf(),
            final(self).source == old(self).source,
            final(self).line == old(self).line,
            old(self).char_index < old(self).source@.len() && old(self).source@[old(
                self,
            ).char_index as int] == '=' ==> t.token_type == op_equal && final(self).char_index
                == old(self).char_index + 1,
            !(old(self).char_index < old(self).source@.len() && old(self).source@[old(
                self,
            ).char_index as int] == '=') ==> t.token_type == op && final(self).char_index == old(
                self,
            ).char_index,
            t.lexeme is None,
            t.line == final(self).line,
    {
        let c = self.next_char();
        match c {
            Some('=') => Token::new(op_equal, None, self.line),
            Some(other) => {
                self.buffer_char(other);
                Token::new(op, None, self.line)
            },
            None => Token::new(op, None, self.line),
        }
    }

    /// After a `/`: a second `/` starts a line comment, a `*` starts a block
    /// comment — both are skipped and yield no token — anything else steps
    /// back and yields the slash itself.
    fn scan_slash(&mut self) -> (t: Option<Token>)
        requires
            old(self).wf(),
        ensures
            final(self).wf(),
            final(self).source == old(self).source,
            final(self).line >= old(self).line,
            final(self).char_index >= old(self).char_index,
            t matches Some(tok) ==> tok.token_type == TokenType::Slash && tok.line == final(self).line,
    {
        let c = self.next_char();
        match c {
            Some('/') => self.scan_single_line_comment(),
            Some('*') => self.scan_multi_line_comment(),
            Some(other) => {
                self.buffer_char(other);
                Some(Token::new(TokenType::Slash, None, self.line))
            },
            None => Some(Token::new(TokenType::Slash, None, self.line)),
        }
    }

    /// Skips to the end of the line (or of the source). Never yields a token.
    fn scan_single_line_comment(&mut self) -> (t: Option<Token>)
        requires
            old(self).wf(),
        ensures
            final(self).wf(),
            final(self).source == old(self).source,
            final(self).line >= old(self).line,
            final(self).char_index >= old(self).char_index,
            t is None,
    {
        loop
            invariant
                self.wf(),
                self.source == old(self).source,
                self.line >= old(self).line,
                self.char_index >= old(self).char_index,
            decreases self.source@.len() - self.char_index,
        {
            match self.next_char() {
                Some('\n') => {
                    if self.line < usize::MAX {
                        self.line = self.line + 1;
                    }
                    return None;
                },
                None => {
                    return None;
                },
                _ => {},
            }
        }
    }

    /// Skips a block comment, honouring nesting, to its closing `*/` (or the
    /// end of the source). Never yields a token.
    fn scan_multi_line_comment(&mut self) -> (t: Option<Token>)
        requires
            old(self).wf(),
        ensures
            final(self).wf(),
            final(self).source == old(self).source,
            final(self).line >= old(self).line,
            final(self).char_index >= old(self).char_index,
            t is None,
        decreases old(self).source@.len() - old(self).char_index,
    {
        loop
            invariant
                self.wf(),
                self.source == old(self).source,
                self.line >= old(self).line,
                self.char_index >= old(self).char_index,
            decreases self.source@.len() - self.char_index,
        {
            match self.next_char() {
                Some('\n') => {
                    if self.line < usize::MAX {
                        self.line = self.line + 1;
                    }
                },
                Some('*') => {
                    let c = self.next_char();
                    match c {
                        Some('\n') => {
                            if self.line < usize::MAX {
                                self.line = self.line + 1;
                            }
                        },
                        Some('/') => {
                            return None;
                        },
                        None => {
                            return None;
                        },
                        _ => {},
                    }
                },
                Some('/') => {
                    let c = self.next_char();
                    match c {
                        Some('\n') => {
                            if self.line < usize::MAX {
                                self.line = self.line + 1;
                            }
                        },
                        Some('*') => {
                            self.scan_multi_line_comment();
                        },
                        None => {
                            return None;
                        },
                        _ => {},
                    }
                },
                None => {
                    return None;
                },
                _ => {},
            }
        }
    }

    /// After the opening quote: collects characters up to the closing quote
    /// into the lexeme; the end of the source first is an unterminated
    /// string.
    fn scan_string(&mut self) -> (r: Result<Token, Error>)
        requires
            old(self).wf(),
        ensures
            final(self).wf(),
            final(self).source == old(self).source,
            final(self).line >= old(self).line,
            final(self).char_index >= old(self).char_index,
            r matches Ok(t) ==> t.token_type == TokenType::String && t.line == final(self).line
                && t.lexeme is Some && t.lexeme->0@ == old(self).source@.subrange(
                old(self).char_index as int,
                final(self).char_index - 1,
            ),
            r is Err ==> r->Err_0.kind is ScannerError,
    {
        let mut value = String::new();
        proof {
            assert(value@ =~= self.source@.subrange(
                self.char_index as int,
                self.char_index as int,
            ));
        }
        loop
            invariant
                self.wf(),
                self.source == old(self).source,
                self.line >= old(self).line,
                self.char_index >= old(self).char_index,
                value@ == self.source@.subrange(
                    old(self).char_index as int,
                    self.char_index as int,
                ),
            decreases self.source@.len() - self.char_index,
        {
            let c = self.next_char();
            match c {
                Some('"') => {
                    proof {
                        assert(value@ =~= self.source@.subrange(
                            old(self).char_index as int,
                            self.char_index - 1,
                        ));
                    }
                    return Ok(Token::new(TokenType::String, Some(value), self.line));
                },
                Some(other) => {
                    if other == '\n' {
                        if self.line < usize::MAX {
                            self.line = self.line + 1;
                        }
                    }
                    push_char(&mut value, other);
                    proof {
                        assert(value@ =~= self.source@.subrange(
                            old(self).char_index as int,
                            self.char_index as int,
                        ));
                    }
                },
                None => {
                    return Err(
                        Error::new(
                            ErrorKind::ScannerError {
                                line: self.line,
                                message: String::from_str("Unterminated string"),
                            },
                        ),
                    );
                },
            }
        }
    }

    /// After the first digit: collects digits and at most one dot into the
    /// lexeme; a second dot or any other character is stepped back over.
    fn scan_number(&mut self, first: char) -> (t: Token)
        requires
            old(self).wf(),
        ensures
            final(self).wf(),
            final(self).source == old(self).source,
            final(self).line == old(self).line,
            final(self).char_index >= old(self).char_index,
            t.token_type == TokenType::Number && t.line == final(self).line && t.lexeme is Some
                && t.lexeme->0@ == seq![first] + old(self).source@.subrange(
                old(self).char_index as int,
                final(self).char_index as int,
            ),
    {
        let mut value = String::new();
        push_char(&mut value, first);
        let mut have_dot = false;
        proof {
            assert(value@ =~= seq![first] + self.source@.subrange(
                self.char_index as int,
                self.char_index as int,
            ));
        }
        loop
            invariant
                self.wf(),
                self.source == old(self).source,
                self.line == old(self).line,
                self.char_index >= old(self).char_index,
                value@ == seq![first] + self.source@.subrange(
                    old(self).char_index as int,
                    self.char_index as int,
                ),
            decreases self.source@.len() - self.char_index,
        {
            let c = self.next_char();
            match c {
                Some('.') => {
                    if have_dot {
                        self.buffer_char('.');
                        proof {
                            assert(value@ =~= seq![first] + self.source@.subrange(
                                old(self).char_index as int,
                                self.char_index as int,
                            ));
                        }
                        return Token::new(TokenType::Number, Some(value), self.line);
                    }
                    push_char(&mut value, '.');
                    have_dot = true;
                    proof {
                        assert(value@ =~= seq![first] + self.source@.subrange(
                            old(self).char_index as int,
                            self.char_index as int,
                        ));
                    }
                },
                Some(other) => {
                    if is_digit_char(other) {
                        push_char(&mut value, other);
                        proof {
                            assert(value@ =~= seq![first] + self.source@.subrange(
                                old(self).char_index as int,
                                self.char_index as int,
                            ));
                        }
                    } else {
                        self.buffer_char(other);
                        proof {
                            assert(value@ =~= seq![first] + self.source@.subrange(
                                old(self).char_index as int,
                                self.char_index as int,
                            ));
                        }
                        return Token::new(TokenType::Number, Some(value), self.line);
                    }
                },
                None => {
                    return Token::new(TokenType::Number, Some(value), self.line);
                },
            }
        }
    }

    /// After the first identifier character: collects identifier characters,
    /// then classifies the word — keywords are matched without regard to
    /// case — yielding a keyword token or an identifier with its lexeme.
    fn scan_identifier(&mut self, c: char) -> (t: Token)
        requires
            old(self).wf(),
        ensures
            final(self).wf(),
            final(self).source == old(self).source,
            final(self).line == old(self).line,
            final(self).char_index >= old(self).char_index,
            t.line == final(self).line,
            t.token_type == TokenType::Identifier ==> t.lexeme is Some && t.lexeme->0@ == seq![c]
                + old(self).source@.subrange(
                old(self).char_index as int,
                final(self).char_index as int,
            ),
    {
        let mut value = String::new();
        push_char(&mut value, c);
        proof {
            assert(value@ =~= seq![c] + self.source@.subrange(
                self.char_index as int,
                self.char_index as int,
            ));
        }
        loop
            invariant
                self.wf(),
                self.source == old(self).source,
                self.line == old(self).line,
                self.char_index >= old(self).char_index,
                value@ == seq![c] + self.source@.subrange(
                    old(self).char_index as int,
                    self.char_index as int,
                ),
            decreases self.source@.len() - self.char_index,
        {
            let next = self.next_char();
            match next {
                Some(other) => {
                    if is_identifier_char(other) {
                        push_char(&mut value, other);
                        proof {
                            assert(value@ =~= seq![c] + self.source@.subrange(
                                old(self).char_index as int,
                                self.char_index as int,
                            ));
                        }
                    } else {
                        self.buffer_char(other);
                        proof {
                            assert(value@ =~= seq![c] + self.source@.subrange(
                                old(self).char_index as int,
                                self.char_index as int,
                            ));
                        }
                        break;
                    }
                },
                None => {
                    break;
                },
            }
        }
        let key_word = lowercase(value.as_str());
        if key_word.eq(&String::from_str("and")) {
            Token::new(TokenType::And, None, self.line)
        } else if key_word.eq(&String::from_str("class")) {
            Token::new(TokenType::Class, None, self.line)
        } else if key_word.eq(&String::from_str("else")) {
            Token::new(TokenType::Else, None, self.line)
        } else if key_word.eq(&String::from_str("false")) {
            Token::new(TokenType::False, None, self.line)
        } else if key_word.eq(&String::from_str("for")) {
            Token::new(TokenType::For, None, self.line)
        } else if key_word.eq(&String::from_str("fun")) {
            Token::new(TokenType::Fun, None, self.line)
        } else if key_word.eq(&String::from_str("if")) {
            Token::new(TokenType::If, None, self.line)
        } else if key_word.eq(&String::from_str("null")) {
            Token::new(TokenType::Null, None, self.line)
        } else if key_word.eq(&String::from_str("or")) {
            Token::new(TokenType::Or, None, self.line)
        } else if key_word.eq(&String::from_str("print")) {
            Token::new(TokenType::Print, None, self.line)
        } else if key_word.eq(&String::from_str("return")) {
            Token::new(TokenType::Return, None, self.line)
        } else if key_word.eq(&String::from_str("super")) {
            Token::new(TokenType::Super, None, self.line)
        } else if key_word.eq(&String::from_str("this")) {
            Token::new(TokenType::This, None, self.line)
        } else if key_word.eq(&String::from_str("true")) {
            Token::new(TokenType::True, None, self.line)
        } else if key_word.eq(&String::from_str("var")) {
            Token::new(TokenType::Var, None, self.line)
        } else if key_word.eq(&String::from_str("while")) {
            Token::new(TokenType::While, None, self.line)
        } else {
            Token::new(TokenType::Identifier, Some(value), self.line)
        }
    }

    /// All the remaining tokens of the source, in order; the first scanner
    /// error aborts the whole scan.
    pub fn scan_all(&mut self) -> (r: Result<Vec<Token>, Error>)
        requires
            old(self).wf(),
        ensures
            final(self).wf(),
            final(self).source == old(self).source,
            final(self).char_index >= old(self).char_index,
            r is Err ==> r->Err_0.kind is ScannerError,
    {
        let mut tokens: Vec<Token> = Vec::new();
        loop
            invariant
                self.wf(),
                self.source == old(self).source,
                self.char_index >= old(self).char_index,
            decreases self.source@.len() - self.char_index,
        {
            match self.next_token() {
                Ok(Some(t)) => {
                    tokens.push(t);
                },
                Ok(None) => {
                    return Ok(tokens);
                },
                Err(e) => {
                    return Err(e);
                },
            }
        }
    }
}

} // verus!
