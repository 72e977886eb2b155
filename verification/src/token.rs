//! Tokens: the unit the scanner produces and the parser consumes. A token is
//! a kind, an optional lexeme (the text of a string, number or identifier),
//! and the line it was found on.

use vstd::prelude::*;
use vstd::string::StringExecFns;

verus! {

/// The kinds of token the language knows.
#[derive(Debug, Copy, Clone, PartialEq, Eq, Structural)]
pub enum TokenType {
    LeftParen,
    RightParen,
    LeftBrace,
    RightBrace,
    Comma,
    Dot,
    Minus,
    Plus,
    Semicolon,
    Slash,
    Star,
    Bang,
    BangEqual,
    Equal,
    EqualEqual,
    Greater,
    GreaterEqual,
    Less,
    LessEqual,
    And,
    Class,
    Else,
    False,
    Fun,
    For,
    If,
    Null,
    Or,
    Print,
    Return,
    Super,
    This,
    True,
    Var,
    While,
    String,
    Number,
    Identifier,
    Query,
    Colon,
}

/// One token of source text.
#[derive(Debug)]
pub struct Token {
    pub token_type: TokenType,
    pub lexeme: Option<String>,
    pub line: usize,
}

impl TokenType {
    /// The name of the kind, as diagnostics spell it.
    pub open spec fn spec_name(&self) -> Seq<char> {
        match self {
            TokenType::LeftParen => "LeftParen"@,
            TokenType::RightParen => "RightParen"@,
            TokenType::LeftBrace => "LeftBrace"@,
            TokenType::RightBrace => "RightBrace"@,
            TokenType::Comma => "Comma"@,
            TokenType::Dot => "Dot"@,
            TokenType::Minus => "Minus"@,
            TokenType::Plus => "Plus"@,
            TokenType::Semicolon => "Semicolon"@,
            TokenType::Slash => "Slash"@,
            TokenType::Star => "Star"@,
            TokenType::Bang => "Bang"@,
            TokenType::BangEqual => "BangEqual"@,
            TokenType::Equal => "Equal"@,
            TokenType::EqualEqual => "EqualEqual"@,
            TokenType::Greater => "Greater"@,
            TokenType::GreaterEqual => "GreaterEqual"@,
            TokenType::Less => "Less"@,
            TokenType::LessEqual => "LessEqual"@,
            TokenType::And => "And"@,
            TokenType::Class => "Class"@,
            TokenType::Else => "Else"@,
            TokenType::False => "False"@,
            TokenType::Fun => "Fun"@,
            TokenType::For => "For"@,
            TokenType::If => "If"@,
            TokenType::Null => "Null"@,
            TokenType::Or => "Or"@,
            TokenType::Print => "Print"@,
            TokenType::Return => "Return"@,
            TokenType::Super => "Super"@,
            TokenType::This => "This"@,
            TokenType::True => "True"@,
            TokenType::Var => "Var"@,
            TokenType::While => "While"@,
            TokenType::String => "String"@,
            TokenType::Number => "Number"@,
            TokenType::Identifier => "Identifier"@,
            TokenType::Query => "Query"@,
            TokenType::Colon => "Colon"@,
        }
    }

    /// The name of the kind, as a fresh string.
    pub fn name(&self) -> (r: String)
        ensures
            r@ == self.spec_name(),
    {
        match self {
            TokenType::LeftParen => String::from_str("LeftParen"),
            TokenType::RightParen => String::from_str("RightParen"),
            TokenType::LeftBrace => String::from_str("LeftBrace"),
            TokenType::RightBrace => String::from_str("RightBrace"),
            TokenType::Comma => String::from_str("Comma"),
            TokenType::Dot => String::from_str("Dot"),
            TokenType::Minus => String::from_str("Minus"),
            TokenType::Plus => String::from_str("Plus"),
            TokenType::Semicolon => String::from_str("Semicolon"),
            TokenType::Slash => String::from_str("Slash"),
            TokenType::Star => String::from_str("Star"),
            TokenType::Bang => String::from_str("Bang"),
            TokenType::BangEqual => String::from_str("BangEqual"),
            TokenType::Equal => String::from_str("Equal"),
            TokenType::EqualEqual => String::from_str("EqualEqual"),
            TokenType::Greater => String::from_str("Greater"),
            TokenType::GreaterEqual => String::from_str("GreaterEqual"),
            TokenType::Less => String::from_str("Less"),
            TokenType::LessEqual => String::from_str("LessEqual"),
            TokenType::And => String::from_str("And"),
            TokenType::Class => String::from_str("Class"),
            TokenType::Else => String::from_str("Else"),
            TokenType::False => String::from_str("False"),
            TokenType::Fun => String::from_str("Fun"),
            TokenType::For => String::from_str("For"),
            TokenType::If => String::from_str("If"),
            TokenType::Null => String::from_str("Null"),
            TokenType::Or => String::from_str("Or"),
            TokenType::Print => String::from_str("Print"),
            TokenType::Return => String::from_str("Return"),
            TokenType::Super => String::from_str("Super"),
            TokenType::This => String::from_str("This"),
            TokenType::True => String::from_str("True"),
            TokenType::Var => String::from_str("Var"),
            TokenType::While => String::from_str("While"),
            TokenType::String => String::from_str("String"),
            TokenType::Number => String::from_str("Number"),
            TokenType::Identifier => String::from_str("Identifier"),
            TokenType::Query => String::from_str("Query"),
            TokenType::Colon => String::from_str("Colon"),
        }
    }
}

impl Token {
    pub fn new(token_type: TokenType, lexeme: Option<String>, line: usize) -> (t: Token)
        ensures
            t.token_type == token_type,
            t.line == line,
            t.lexeme == lexeme,
    {
        Token { token_type, lexeme, line }
    }

    pub fn token_type(&self) -> (r: TokenType)
        ensures
            r == self.token_type,
    {
        self.token_type
    }

    pub fn lexeme(&self) -> (r: Option<&str>)
        ensures
            r is Some <==> self.lexeme is Some,
            r is Some ==> r->0@ == self.lexeme->0@,
    {
        match &self.lexeme {
            Some(s) => Some(s.as_str()),
            None => None,
        }
    }

    pub fn line(&self) -> (r: usize)
        ensures
            r == self.line,
    {
        self.line
    }

    /// The characters of the lexeme, or the empty sequence when there is none.
    pub open spec fn spec_lexeme(&self) -> Seq<char> {
        match self.lexeme {
            Some(s) => s@,
            None => Seq::empty(),
        }
    }

    /// The surface text a token stands for: the operator or keyword itself,
    /// a string lexeme in quotes, a number or identifier lexeme as it is.
    pub open spec fn spec_text(&self) -> Seq<char> {
        match self.token_type {
            TokenType::LeftParen => "("@,
            TokenType::RightParen => ")"@,
            TokenType::LeftBrace => "{"@,
            TokenType::RightBrace => "}"@,
            TokenType::Comma => ","@,
            TokenType::Dot => "."@,
            TokenType::Minus => "-"@,
            TokenType::Plus => "+"@,
            TokenType::Semicolon => ";"@,
            TokenType::Slash => "/"@,
            TokenType::Star => "*"@,
            TokenType::Bang => "!"@,
            TokenType::BangEqual => "!="@,
            TokenType::Equal => "="@,
            TokenType::EqualEqual => "=="@,
            TokenType::Greater => ">"@,
            TokenType::GreaterEqual => ">="@,
            TokenType::Less => "<"@,
            TokenType::LessEqual => "<="@,
            TokenType::And => "and"@,
            TokenType::Class => "class"@,
            TokenType::Else => "else"@,
            TokenType::False => "false"@,
            TokenType::Fun => "fun"@,
            TokenType::For => "for"@,
            TokenType::If => "if"@,
            TokenType::Null => "null"@,
            TokenType::Or => "or"@,
            TokenType::Print => "print"@,
            TokenType::Return => "return"@,
            TokenType::Super => "super"@,
            TokenType::This => "this"@,
            TokenType::True => "true"@,
            TokenType::Var => "var"@,
            TokenType::While => "while"@,
            TokenType::Query => "?"@,
            TokenType::Colon => ":"@,
            TokenType::String => "\""@ + self.spec_lexeme() + "\""@,
            TokenType::Number => self.spec_lexeme(),
            TokenType::Identifier => self.spec_lexeme(),
        }
    }

    /// The surface text a token stands for, built as a fresh string.
    pub fn text(&self) -> (r: String)
        ensures
            r@ == self.spec_text(),
    {
        match self.token_type {
            TokenType::LeftParen => String::from_str("("),
            TokenType::RightParen => String::from_str(")"),
            TokenType::LeftBrace => String::from_str("{"),
            TokenType::RightBrace => String::from_str("}"),
            TokenType::Comma => String::from_str(","),
            TokenType::Dot => String::from_str("."),
            TokenType::Minus => String::from_str("-"),
            TokenType::Plus => String::from_str("+"),
            TokenType::Semicolon => String::from_str(";"),
            TokenType::Slash => String::from_str("/"),
            TokenType::Star => String::from_str("*"),
            TokenType::Bang => String::from_str("!"),
            TokenType::BangEqual => String::from_str("!="),
            TokenType::Equal => String::from_str("="),
            TokenType::EqualEqual => String::from_str("=="),
            TokenType::Greater => String::from_str(">"),
            TokenType::GreaterEqual => String::from_str(">="),
            TokenType::Less => String::from_str("<"),
            TokenType::LessEqual => String::from_str("<="),
            TokenType::And => String::from_str("and"),
            TokenType::Class => String::from_str("class"),
            TokenType::Else => String::from_str("else"),
            TokenType::False => String::from_str("false"),
            TokenType::Fun => String::from_str("fun"),
            TokenType::For => String::from_str("for"),
            TokenType::If => String::from_str("if"),
            TokenType::Null => String::from_str("null"),
            TokenType::Or => String::from_str("or"),
            TokenType::Print => String::from_str("print"),
            TokenType::Return => String::from_str("return"),
            TokenType::Super => String::from_str("super"),
            TokenType::This => String::from_str("this"),
            TokenType::True => String::from_str("true"),
            TokenType::Var => String::from_str("var"),
            TokenType::While => String::from_str("while"),
            TokenType::Query => String::from_str("?"),
            TokenType::Colon => String::from_str(":"),
            TokenType::String => {
                let mut r = String::from_str("\"");
                match &self.lexeme {
                    Some(s) => r.append(s.as_str()),
                    None => (),
                }
                r.append("\"");
                r
            },
            TokenType::Number => {
                match &self.lexeme {
                    Some(s) => s.clone(),
                    None => String::new(),
                }
            },
            TokenType::Identifier => {
                match &self.lexeme {
                    Some(s) => s.clone(),
                    None => String::new(),
                }
            },
        }
    }

    /// A copy of this token, equal to the original.
    pub fn duplicate(&self) -> (t: Token)
        ensures
            t == *self,
    {
        let lexeme = match &self.lexeme {
            Some(s) => Some(s.clone()),
            None => None,
        };
        Token { token_type: self.token_type, lexeme, line: self.line }
    }
}

} // verus!
