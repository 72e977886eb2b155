//! The parser: a recursive-descent, precedence-climbing grammar over a
//! buffered token cursor with one token of lookahead. Left-associative tiers
//! are built iteratively and so lean left; the ternary nests to the right.
//! The first grammar violation aborts the whole parse with a parser error —
//! there is no recovery.
//!
//! The grammar itself is written down as total spec functions over the token
//! sequence ([`spec_parse_program`] and the `spec_parse_*` rule below it),
//! and each parsing function is verified to succeed exactly where its rule
//! derives the input, returning that rule's tree and resting cursor.

use vstd::prelude::*;
use vstd::string::StringExecFns;

use crate::ast::{
    stmt_view, stmts_view, Assign, Binary, Block, Expr, ExpressionStatement, Grouping, If, Literal,
    Logical, Print, SpecStmt, Stmt, Ternary, Unary, Var, Variable, While,
};
use crate::error::{Error, ErrorKind};
use crate::number::{num_parse, parse_number};
use crate::token::{Token, TokenType};
use crate::value::Value;

verus! {

/// A cursor over a scanned token stream.
#[derive(Debug)]
pub struct Tokens {
    pub tokens: Vec<Token>,
    pub pos: usize,
}

impl Tokens {
    /// The cursor stands on or before the end of the stream.
    pub open spec fn wf(&self) -> bool {
        self.pos <= self.tokens@.len()
    }

    /// How many tokens are left to consume.
    pub open spec fn remaining(&self) -> int {
        self.tokens@.len() - self.pos
    }

    pub fn new(tokens: Vec<Token>) -> (t: Tokens)
        ensures
            t.tokens == tokens,
            t.pos == 0,
            t.wf(),
    {
        Tokens { tokens, pos: 0 }
    }

    /// The lookahead token, if any is left.
    pub fn current(&self) -> (r: Option<&Token>)
        requires
            self.wf(),
        ensures
            r is Some <==> self.pos < self.tokens@.len(),
            r is Some ==> *r->0 == self.tokens@[self.pos as int],
    {
        if self.pos < self.tokens.len() {
            Some(&self.tokens[self.pos])
        } else {
            None
        }
    }

    /// Consumes and yields the lookahead token, if any is left.
    pub fn next(&mut self) -> (r: Option<Token>)
        requires
            old(self).wf(),
        ensures
            final(self).wf(),
            final(self).tokens == old(self).tokens,
            old(self).pos < old(self).tokens@.len() ==> {
                &&& r is Some
                &&& r->0 == old(self).tokens@[old(self).pos as int]
                &&& final(self).pos == old(self).pos + 1
            },
            old(self).pos == old(self).tokens@.len() ==> r is None && final(self).pos == old(
                self,
            ).pos,
    {
        if self.pos < self.tokens.len() {
            let t = self.tokens[self.pos].duplicate();
            self.pos = self.pos + 1;
            Some(t)
        } else {
            None
        }
    }

    /// Whether the lookahead token exists and is of one of the given kinds.
    pub fn token_match(&self, variants: &[TokenType]) -> (r: bool)
        requires
            self.wf(),
        ensures
            r == (self.pos < self.tokens@.len() && variants@.contains(
                self.tokens@[self.pos as int].token_type,
            )),
    {
        if self.pos >= self.tokens.len() {
            return false;
        }
        let tt = self.tokens[self.pos].token_type;
        let n: usize = variants.len();
        let mut i: usize = 0;
        while i < n
            invariant
                i <= n,
                n == variants@.len(),
                self.pos < self.tokens@.len(),
                tt == self.tokens@[self.pos as int].token_type,
                forall|j: int| 0 <= j < i ==> variants@[j] != tt,
            decreases n - i,
        {
            if variants[i] == tt {
                proof {
                    assert(variants@.contains(tt)) by {
                        assert(variants@[i as int] == tt);
                    }
                }
                return true;
            }
            i = i + 1;
        }
        false
    }

    /// Consumes the lookahead token and yields it when it is of one of the
    /// given kinds; anything else — the wrong kind, or no token left — is a
    /// parser error carrying the given message.
    pub fn consume(&mut self, variants: &[TokenType], err_message: &str) -> (r: Result<
        Token,
        Error,
    >)
        requires
            old(self).wf(),
        ensures
            final(self).wf(),
            final(self).tokens == old(self).tokens,
            r is Ok <==> (old(self).pos < old(self).tokens@.len() && variants@.contains(
                old(self).tokens@[old(self).pos as int].token_type,
            )),
            old(self).pos < old(self).tokens@.len() ==> final(self).pos == old(self).pos + 1,
            old(self).pos == old(self).tokens@.len() ==> final(self).pos == old(self).pos,
            r is Ok ==> r->Ok_0 == old(self).tokens@[old(self).pos as int],
            r is Err ==> (r->Err_0.kind matches ErrorKind::ParserError { token, message } && {
                &&& message@ == err_message@
                &&& token == (if old(self).pos < old(self).tokens@.len() {
                    Some(old(self).tokens@[old(self).pos as int])
                } else {
                    Option::<Token>::None
                })
            }),
    {
        let matched = self.token_match(variants);
        let token = self.next();
        match token {
            Some(t) => {
                if matched {
                    Ok(t)
                } else {
                    Err(
                        Error::new(
                            ErrorKind::ParserError {
                                token: Some(t),
                                message: String::from_str(err_message),
                            },
                        ),
                    )
                }
            },
            None => Err(
                Error::new(
                    ErrorKind::ParserError { token: None, message: String::from_str(err_message) },
                ),
            ),
        }
    }

    /// Whether the lookahead token is of the given kind.
    fn at_kind(&self, t: TokenType) -> (r: bool)
        requires
            self.wf(),
        ensures
            r == peek_is(self.tokens@, self.pos as int, t),
    {
        if self.pos < self.tokens.len() {
            self.tokens[self.pos].token_type == t
        } else {
            false
        }
    }

    /// As [`Tokens::consume`], for a single kind.
    fn consume_kind(&mut self, t: TokenType, err_message: &str) -> (r: Result<Token, Error>)
        requires
            old(self).wf(),
        ensures
            final(self).wf(),
            final(self).tokens == old(self).tokens,
            r is Ok <==> peek_is(old(self).tokens@, old(self).pos as int, t),
            old(self).pos < old(self).tokens@.len() ==> final(self).pos == old(self).pos + 1,
            old(self).pos == old(self).tokens@.len() ==> final(self).pos == old(self).pos,
            r is Ok ==> r->Ok_0 == old(self).tokens@[old(self).pos as int],
            r is Err ==> (r->Err_0.kind matches ErrorKind::ParserError { token, message } && {
                &&& message@ == err_message@
                &&& token == (if old(self).pos < old(self).tokens@.len() {
                    Some(old(self).tokens@[old(self).pos as int])
                } else {
                    Option::<Token>::None
                })
            }),
    {
        let kinds: &[TokenType] = &[t];
        proof {
            assert(kinds@[0] == t);
            assert(forall|x: TokenType| kinds@.contains(x) <==> x == t);
        }
        self.consume(kinds, err_message)
    }
}

/// The value a literal token stands for: the characters of a string token,
/// the parsed number of a number token. Any other token, a token without a
/// lexeme, or a lexeme that is not a numeral, is a parser error.
pub fn parse_value(token: Token) -> (r: Result<Value, Error>)
    ensures
        token.token_type == TokenType::String && token.lexeme is Some ==> r is Ok && r->Ok_0
            == Value::Str(token.lexeme->0),
        token.token_type == TokenType::Number && token.lexeme is Some ==> {
            &&& (r is Ok <==> num_parse(token.lexeme->0@) is Some)
            &&& (r is Ok ==> r->Ok_0 == Value::Number(num_parse(token.lexeme->0@)->Some_0))
        },
        token.token_type != TokenType::String && token.token_type != TokenType::Number ==> r is Err,
        token.lexeme is None ==> r is Err,
        r is Err ==> r->Err_0.kind is ParserError,
{
    match token.token_type {
        TokenType::String => {},
        TokenType::Number => {},
        _ => {
            let kind_name = token.token_type.name();
            let mut message = String::from_str("Token ");
            message.append(kind_name.as_str());
            message.append(" has no value");
            return Err(Error::new(ErrorKind::ParserError { token: Some(token), message }));
        },
    }
    let lexeme = match &token.lexeme {
        Some(s) => s.clone(),
        None => {
            let text = token.text();
            let mut message = String::from_str("Token ");
            message.append(text.as_str());
            message.append(" without value");
            return Err(Error::new(ErrorKind::ParserError { token: Some(token), message }));
        },
    };
    match token.token_type {
        TokenType::Number => {
            match parse_number(lexeme.as_str()) {
                Some(bits) => Ok(Value::Number(bits)),
                None => Err(
                    Error::new(
                        ErrorKind::ParserError {
                            token: Some(token),
                            message: String::from_str("invalid number literal"),
                        },
                    ),
                ),
            }
        },
        _ => Ok(Value::Str(lexeme)),
    }
}

/// The left-associative binary tiers of the grammar, each built iteratively
/// over the operators it owns.
pub enum BinaryTier {
    Comma,
    Equality,
    Comparison,
    Term,
    Factor,
}

/// An operator of the equality tier.
pub open spec fn is_equality_op(t: TokenType) -> bool {
    t == TokenType::BangEqual || t == TokenType::EqualEqual
}

/// An operator of the comparison tier.
pub open spec fn is_comparison_op(t: TokenType) -> bool {
    t == TokenType::Greater || t == TokenType::GreaterEqual || t == TokenType::Less || t
        == TokenType::LessEqual
}

/// An operator of the term tier.
pub open spec fn is_term_op(t: TokenType) -> bool {
    t == TokenType::Minus || t == TokenType::Plus
}

/// An operator of the factor tier.
pub open spec fn is_factor_op(t: TokenType) -> bool {
    t == TokenType::Slash || t == TokenType::Star
}

/// Whether a tier owns an operator kind.
pub open spec fn tier_has(tier: BinaryTier, t: TokenType) -> bool {
    match tier {
        BinaryTier::Comma => t == TokenType::Comma,
        BinaryTier::Equality => is_equality_op(t),
        BinaryTier::Comparison => is_comparison_op(t),
        BinaryTier::Term => is_term_op(t),
        BinaryTier::Factor => is_factor_op(t),
    }
}

/// The binary operator at the top of an expression, when its top node is a
/// binary operation.
pub open spec fn top_binary_op(e: Expr) -> Option<TokenType> {
    match e {
        Expr::Binary(b) => Some(b.operator.token_type),
        _ => None,
    }
}

/// The top of the expression carries no operator of the tier.
pub open spec fn top_outside_tier(e: Expr, tier: BinaryTier) -> bool {
    match top_binary_op(e) {
        Some(op) => !tier_has(tier, op),
        None => true,
    }
}

/// Everywhere in the tree, chains of one tier's operators lean strictly
/// left: a binary node carrying a tier operator never has that tier's
/// operator at the top of its right operand.
pub open spec fn left_nested(e: Expr, tier: BinaryTier) -> bool
    decreases e,
{
    match e {
        Expr::Binary(b) => {
            &&& left_nested(*b.left, tier)
            &&& left_nested(*b.right, tier)
            &&& (tier_has(tier, b.operator.token_type) ==> top_outside_tier(*b.right, tier))
        },
        Expr::Grouping(g) => left_nested(*g.expression, tier),
        Expr::Literal(_) => true,
        Expr::Unary(u) => left_nested(*u.right, tier),
        Expr::Ternary(t) => left_nested(*t.first, tier) && left_nested(*t.second, tier)
            && left_nested(*t.third, tier),
        Expr::Variable(_) => true,
        Expr::Assign(a) => left_nested(*a.value, tier),
        Expr::Logical(l) => left_nested(*l.left, tier) && left_nested(*l.right, tier),
    }
}

/// Every left-associative binary tier leans strictly left, everywhere in
/// the tree: `1-2-3` can only be `(- (- 1 2) 3)`.
pub open spec fn left_associative(e: Expr) -> bool {
    &&& left_nested(e, BinaryTier::Comma)
    &&& left_nested(e, BinaryTier::Equality)
    &&& left_nested(e, BinaryTier::Comparison)
    &&& left_nested(e, BinaryTier::Term)
    &&& left_nested(e, BinaryTier::Factor)
}

/// A binary operator at the factor tier or below.
pub open spec fn factor_level(t: TokenType) -> bool {
    is_factor_op(t)
}

/// A binary operator at the term tier or below.
pub open spec fn term_level(t: TokenType) -> bool {
    is_term_op(t) || is_factor_op(t)
}

/// A binary operator at the comparison tier or below.
pub open spec fn comparison_level(t: TokenType) -> bool {
    is_comparison_op(t) || term_level(t)
}

/// A binary operator at the equality tier or below.
pub open spec fn equality_level(t: TokenType) -> bool {
    is_equality_op(t) || comparison_level(t)
}

/// The top node is no binary operation at all.
pub open spec fn top_not_binary(e: Expr) -> bool {
    top_binary_op(e) is None
}

/// The top binary operator, if there is one, sits at the factor tier or
/// below.
pub open spec fn top_at_factor_level(e: Expr) -> bool {
    match top_binary_op(e) {
        Some(op) => factor_level(op),
        None => true,
    }
}

/// The top binary operator, if there is one, sits at the term tier or below.
pub open spec fn top_at_term_level(e: Expr) -> bool {
    match top_binary_op(e) {
        Some(op) => term_level(op),
        None => true,
    }
}

/// The top binary operator, if there is one, sits at the comparison tier or
/// below.
pub open spec fn top_at_comparison_level(e: Expr) -> bool {
    match top_binary_op(e) {
        Some(op) => comparison_level(op),
        None => true,
    }
}

/// The top binary operator, if there is one, sits at the equality tier or
/// below.
pub open spec fn top_at_equality_level(e: Expr) -> bool {
    match top_binary_op(e) {
        Some(op) => equality_level(op),
        None => true,
    }
}

/// The top node is not a ternary conditional.
pub open spec fn top_not_ternary(e: Expr) -> bool {
    !(e is Ternary)
}

/// Everywhere in the tree, the condition of a ternary is never itself a
/// bare ternary: a chain like `a?b:c?d:e` can only nest through the else
/// branch, which is what makes the ternary right-associative.
pub open spec fn ternary_right_nested(e: Expr) -> bool
    decreases e,
{
    match e {
        Expr::Binary(b) => ternary_right_nested(*b.left) && ternary_right_nested(*b.right),
        Expr::Grouping(g) => ternary_right_nested(*g.expression),
        Expr::Literal(_) => true,
        Expr::Unary(u) => ternary_right_nested(*u.right),
        Expr::Ternary(t) => {
            &&& top_not_ternary(*t.first)
            &&& ternary_right_nested(*t.first)
            &&& ternary_right_nested(*t.second)
            &&& ternary_right_nested(*t.third)
        },
        Expr::Variable(_) => true,
        Expr::Assign(a) => ternary_right_nested(*a.value),
        Expr::Logical(l) => ternary_right_nested(*l.left) && ternary_right_nested(*l.right),
    }
}

/// An expression tree shaped as this parser shapes them: every
/// left-associative tier leans strictly left, and ternaries nest only
/// through their else branch.
pub open spec fn expr_well_shaped(e: Expr) -> bool {
    left_associative(e) && ternary_right_nested(e)
}

/// Every expression inside the statement is well shaped.
pub open spec fn stmt_well_shaped(s: Stmt) -> bool
    decreases s,
{
    match s {
        Stmt::Expression(es) => expr_well_shaped(*es.expression),
        Stmt::Print(p) => expr_well_shaped(*p.expression),
        Stmt::Var(v) => expr_well_shaped(*v.right),
        Stmt::Block(b) => stmts_well_shaped(b.statements@),
        Stmt::If(i) => expr_well_shaped(*i.condition) && stmt_well_shaped(*i.then_branch)
            && match i.else_branch {
            Some(e) => stmt_well_shaped(*e),
            None => true,
        },
        Stmt::While(w) => expr_well_shaped(*w.condition) && stmt_well_shaped(*w.body),
    }
}

/// Every expression inside every statement of the sequence is well shaped.
pub open spec fn stmts_well_shaped(ss: Seq<Stmt>) -> bool
    decreases ss,
{
    if ss.len() == 0 {
        true
    } else {
        stmts_well_shaped(ss.drop_last()) && stmt_well_shaped(ss.last())
    }
}


/// The kind of the token at a position of the stream, when one is there.
pub open spec fn peek_kind(toks: Seq<Token>, pos: int) -> Option<TokenType> {
    if 0 <= pos < toks.len() {
        Some(toks[pos].token_type)
    } else {
        None
    }
}

/// Whether the token at a position is of the given kind.
pub open spec fn peek_is(toks: Seq<Token>, pos: int, t: TokenType) -> bool {
    peek_kind(toks, pos) == Some(t)
}

/// The cursor after a sub-parse that began at `from` and reported `to`.
/// Every rule of this grammar consumes at least one token when it succeeds
/// and never passes the end of the stream, so on every position an actual
/// parse reports this is `to` itself; the bounds only settle the termination
/// of the spec parser below.
pub open spec fn step_pos(toks: Seq<Token>, from: int, to: int) -> int {
    let p = if to > from {
        to
    } else {
        from + 1
    };
    if p > toks.len() {
        toks.len() as int
    } else {
        p
    }
}

/// What the grammar derives from a token stream: each `spec_parse_*`
/// function is the meaning of one rule of the recursive descent, as a total
/// function from the stream and a position to the parsed tree and the
/// position after it — or `None` where the rule rejects the input. The
/// executable parser is verified to return `Ok` exactly where these
/// functions yield a result, and to return that result itself.
///
/// `primary → NUMBER | STRING | "true" | "false" | "null" | IDENT |
/// "(" expression ")"`
pub open spec fn spec_parse_primary(toks: Seq<Token>, pos: int) -> Option<(Expr, int)>
    decreases toks.len() - pos, 2int,
{
    if !(0 <= pos < toks.len()) {
        None
    } else {
        let tok = toks[pos];
        match tok.token_type {
            TokenType::False => Some((Expr::Literal(Literal { value: Value::False }), pos + 1)),
            TokenType::True => Some((Expr::Literal(Literal { value: Value::True }), pos + 1)),
            TokenType::Null => Some((Expr::Literal(Literal { value: Value::Null }), pos + 1)),
            TokenType::Number => match tok.lexeme {
                Some(s) => match num_parse(s@) {
                    Some(bits) => Some(
                        (Expr::Literal(Literal { value: Value::Number(bits) }), pos + 1),
                    ),
                    None => None,
                },
                None => None,
            },
            TokenType::String => match tok.lexeme {
                Some(s) => Some((Expr::Literal(Literal { value: Value::Str(s) }), pos + 1)),
                None => None,
            },
            TokenType::Identifier => match tok.lexeme {
                Some(s) => Some((Expr::Variable(Variable { name: s }), pos + 1)),
                None => None,
            },
            TokenType::LeftParen => match spec_parse_expression(toks, pos + 1) {
                Some((e, pr)) => {
                    let p1 = step_pos(toks, pos + 1, pr);
                    if peek_is(toks, p1, TokenType::RightParen) {
                        Some((Expr::Grouping(Grouping { expression: Box::new(e) }), p1 + 1))
                    } else {
                        None
                    }
                },
                None => None,
            },
            _ => None,
        }
    }
}

/// `unary → ("!"|"-") unary | primary`
pub open spec fn spec_parse_unary(toks: Seq<Token>, pos: int) -> Option<(Expr, int)>
    decreases toks.len() - pos, 3int,
{
    if !(0 <= pos < toks.len()) {
        None
    } else if peek_is(toks, pos, TokenType::Bang) || peek_is(toks, pos, TokenType::Minus) {
        match spec_parse_unary(toks, pos + 1) {
            Some((e, pr)) => Some(
                (
                    Expr::Unary(Unary { operator: toks[pos], right: Box::new(e) }),
                    step_pos(toks, pos + 1, pr),
                ),
            ),
            None => None,
        }
    } else {
        spec_parse_primary(toks, pos)
    }
}

/// `ternary → unary ("?" expression ":" expression)?`
pub open spec fn spec_parse_ternary(toks: Seq<Token>, pos: int) -> Option<(Expr, int)>
    decreases toks.len() - pos, 4int,
{
    if !(0 <= pos < toks.len()) {
        None
    } else {
        match spec_parse_unary(toks, pos) {
            None => None,
            Some((e1, p1r)) => {
                let p1 = step_pos(toks, pos, p1r);
                if peek_is(toks, p1, TokenType::Query) {
                    match spec_parse_expression(toks, p1 + 1) {
                        None => None,
                        Some((e2, p2r)) => {
                            let p2 = step_pos(toks, p1 + 1, p2r);
                            if peek_is(toks, p2, TokenType::Colon) {
                                match spec_parse_expression(toks, p2 + 1) {
                                    None => None,
                                    Some((e3, p3r)) => Some(
                                        (
                                            Expr::Ternary(
                                                Ternary {
                                                    operator: toks[p1],
                                                    first: Box::new(e1),
                                                    second: Box::new(e2),
                                                    third: Box::new(e3),
                                                },
                                            ),
                                            step_pos(toks, p2 + 1, p3r),
                                        ),
                                    ),
                                }
                            } else {
                                None
                            }
                        },
                    }
                } else {
                    Some((e1, p1))
                }
            },
        }
    }
}

/// The operators collected after the first operand of the factor tier.
pub open spec fn spec_parse_factor_tail(toks: Seq<Token>, pos: int, acc: Expr) -> Option<
    (Expr, int),
>
    decreases toks.len() - pos, 1int,
{
    if peek_is(toks, pos, TokenType::Slash) || peek_is(toks, pos, TokenType::Star) {
        match spec_parse_ternary(toks, pos + 1) {
            None => None,
            Some((r, pr)) => spec_parse_factor_tail(
                toks,
                step_pos(toks, pos + 1, pr),
                Expr::Binary(
                    Binary { left: Box::new(acc), operator: toks[pos], right: Box::new(r) },
                ),
            ),
        }
    } else {
        Some((acc, pos))
    }
}

/// `factor → ternary (("/"|"*") ternary)*`
pub open spec fn spec_parse_factor(toks: Seq<Token>, pos: int) -> Option<(Expr, int)>
    decreases toks.len() - pos, 5int,
{
    if !(0 <= pos < toks.len()) {
        None
    } else {
        match spec_parse_ternary(toks, pos) {
            None => None,
            Some((e, pr)) => spec_parse_factor_tail(toks, step_pos(toks, pos, pr), e),
        }
    }
}

/// The operators collected after the first operand of the term tier.
pub open spec fn spec_parse_term_tail(toks: Seq<Token>, pos: int, acc: Expr) -> Option<(Expr, int)>
    decreases toks.len() - pos, 1int,
{
    if peek_is(toks, pos, TokenType::Minus) || peek_is(toks, pos, TokenType::Plus) {
        match spec_parse_factor(toks, pos + 1) {
            None => None,
            Some((r, pr)) => spec_parse_term_tail(
                toks,
                step_pos(toks, pos + 1, pr),
                Expr::Binary(
                    Binary { left: Box::new(acc), operator: toks[pos], right: Box::new(r) },
                ),
            ),
        }
    } else {
        Some((acc, pos))
    }
}

/// `term → factor (("-"|"+") factor)*`
pub open spec fn spec_parse_term(toks: Seq<Token>, pos: int) -> Option<(Expr, int)>
    decreases toks.len() - pos, 6int,
{
    if !(0 <= pos < toks.len()) {
        None
    } else {
        match spec_parse_factor(toks, pos) {
            None => None,
            Some((e, pr)) => spec_parse_term_tail(toks, step_pos(toks, pos, pr), e),
        }
    }
}

/// The operators collected after the first operand of the comparison tier.
pub open spec fn spec_parse_comparison_tail(toks: Seq<Token>, pos: int, acc: Expr) -> Option<
    (Expr, int),
>
    decreases toks.len() - pos, 1int,
{
    if peek_is(toks, pos, TokenType::Greater) || peek_is(toks, pos, TokenType::GreaterEqual)
        || peek_is(toks, pos, TokenType::Less) || peek_is(toks, pos, TokenType::LessEqual) {
        match spec_parse_term(toks, pos + 1) {
            None => None,
            Some((r, pr)) => spec_parse_comparison_tail(
                toks,
                step_pos(toks, pos + 1, pr),
                Expr::Binary(
                    Binary { left: Box::new(acc), operator: toks[pos], right: Box::new(r) },
                ),
            ),
        }
    } else {
        Some((acc, pos))
    }
}

/// `comparison → term ((">"|">="|"<"|"<=") term)*`
pub open spec fn spec_parse_comparison(toks: Seq<Token>, pos: int) -> Option<(Expr, int)>
    decreases toks.len() - pos, 7int,
{
    if !(0 <= pos < toks.len()) {
        None
    } else {
        match spec_parse_term(toks, pos) {
            None => None,
            Some((e, pr)) => spec_parse_comparison_tail(toks, step_pos(toks, pos, pr), e),
        }
    }
}

/// The operators collected after the first operand of the equality tier.
pub open spec fn spec_parse_equality_tail(toks: Seq<Token>, pos: int, acc: Expr) -> Option<
    (Expr, int),
>
    decreases toks.len() - pos, 1int,
{
    if peek_is(toks, pos, TokenType::BangEqual) || peek_is(toks, pos, TokenType::EqualEqual) {
        match spec_parse_comparison(toks, pos + 1) {
            None => None,
            Some((r, pr)) => spec_parse_equality_tail(
                toks,
                step_pos(toks, pos + 1, pr),
                Expr::Binary(
                    Binary { left: Box::new(acc), operator: toks[pos], right: Box::new(r) },
                ),
            ),
        }
    } else {
        Some((acc, pos))
    }
}

/// `equality → comparison (("!="|"==") comparison)*`
pub open spec fn spec_parse_equality(toks: Seq<Token>, pos: int) -> Option<(Expr, int)>
    decreases toks.len() - pos, 8int,
{
    if !(0 <= pos < toks.len()) {
        None
    } else {
        match spec_parse_comparison(toks, pos) {
            None => None,
            Some((e, pr)) => spec_parse_equality_tail(toks, step_pos(toks, pos, pr), e),
        }
    }
}

/// The operands collected after the first operand of `logic_and`.
pub open spec fn spec_parse_and_tail(toks: Seq<Token>, pos: int, acc: Expr) -> Option<(Expr, int)>
    decreases toks.len() - pos, 1int,
{
    if peek_is(toks, pos, TokenType::And) {
        match spec_parse_equality(toks, pos + 1) {
            None => None,
            Some((r, pr)) => spec_parse_and_tail(
                toks,
                step_pos(toks, pos + 1, pr),
                Expr::Logical(
                    Logical { left: Box::new(acc), operator: toks[pos], right: Box::new(r) },
                ),
            ),
        }
    } else {
        Some((acc, pos))
    }
}

/// `logic_and → equality ("and" equality)*`
pub open spec fn spec_parse_and(toks: Seq<Token>, pos: int) -> Option<(Expr, int)>
    decreases toks.len() - pos, 9int,
{
    if !(0 <= pos < toks.len()) {
        None
    } else {
        match spec_parse_equality(toks, pos) {
            None => None,
            Some((e, pr)) => spec_parse_and_tail(toks, step_pos(toks, pos, pr), e),
        }
    }
}

/// The operands collected after the first operand of `logic_or`.
pub open spec fn spec_parse_or_tail(toks: Seq<Token>, pos: int, acc: Expr) -> Option<(Expr, int)>
    decreases toks.len() - pos, 1int,
{
    if peek_is(toks, pos, TokenType::Or) {
        match spec_parse_and(toks, pos + 1) {
            None => None,
            Some((r, pr)) => spec_parse_or_tail(
                toks,
                step_pos(toks, pos + 1, pr),
                Expr::Logical(
                    Logical { left: Box::new(acc), operator: toks[pos], right: Box::new(r) },
                ),
            ),
        }
    } else {
        Some((acc, pos))
    }
}

/// `logic_or → logic_and ("or" logic_and)*`
pub open spec fn spec_parse_or(toks: Seq<Token>, pos: int) -> Option<(Expr, int)>
    decreases toks.len() - pos, 10int,
{
    if !(0 <= pos < toks.len()) {
        None
    } else {
        match spec_parse_and(toks, pos) {
            None => None,
            Some((e, pr)) => spec_parse_or_tail(toks, step_pos(toks, pos, pr), e),
        }
    }
}

/// `assignment → IDENT "=" assignment | logic_or` — the rule rejects the
/// input when what stands left of `=` is anything but a bare variable.
pub open spec fn spec_parse_assignment(toks: Seq<Token>, pos: int) -> Option<(Expr, int)>
    decreases toks.len() - pos, 11int,
{
    if !(0 <= pos < toks.len()) {
        None
    } else {
        match spec_parse_or(toks, pos) {
            None => None,
            Some((e, pr)) => {
                let p1 = step_pos(toks, pos, pr);
                if peek_is(toks, p1, TokenType::Equal) {
                    match e {
                        Expr::Variable(v) => match spec_parse_assignment(toks, p1 + 1) {
                            None => None,
                            Some((val, p2r)) => Some(
                                (
                                    Expr::Assign(Assign { name: v.name, value: Box::new(val) }),
                                    step_pos(toks, p1 + 1, p2r),
                                ),
                            ),
                        },
                        _ => None,
                    }
                } else {
                    Some((e, p1))
                }
            },
        }
    }
}

/// The operands collected after the first operand of the comma tier.
pub open spec fn spec_parse_comma_tail(toks: Seq<Token>, pos: int, acc: Expr) -> Option<
    (Expr, int),
>
    decreases toks.len() - pos, 1int,
{
    if peek_is(toks, pos, TokenType::Comma) {
        match spec_parse_assignment(toks, pos + 1) {
            None => None,
            Some((r, pr)) => spec_parse_comma_tail(
                toks,
                step_pos(toks, pos + 1, pr),
                Expr::Binary(
                    Binary { left: Box::new(acc), operator: toks[pos], right: Box::new(r) },
                ),
            ),
        }
    } else {
        Some((acc, pos))
    }
}

/// `expression → assignment ("," assignment)*`
pub open spec fn spec_parse_expression(toks: Seq<Token>, pos: int) -> Option<(Expr, int)>
    decreases toks.len() - pos, 12int,
{
    if !(0 <= pos < toks.len()) {
        None
    } else {
        match spec_parse_assignment(toks, pos) {
            None => None,
            Some((e, pr)) => spec_parse_comma_tail(toks, step_pos(toks, pos, pr), e),
        }
    }
}

/// `exprStmt → expression ";"`
pub open spec fn spec_parse_expr_stmt(toks: Seq<Token>, pos: int) -> Option<(SpecStmt, int)>
    decreases toks.len() - pos, 14int,
{
    if !(0 <= pos < toks.len()) {
        None
    } else {
        match spec_parse_expression(toks, pos) {
            None => None,
            Some((e, pr)) => {
                let p1 = step_pos(toks, pos, pr);
                if peek_is(toks, p1, TokenType::Semicolon) {
                    Some((SpecStmt::Expression { expression: e }, p1 + 1))
                } else {
                    None
                }
            },
        }
    }
}

/// `printStmt → expression ";"`, from after the `print` keyword.
pub open spec fn spec_parse_print(toks: Seq<Token>, pos: int) -> Option<(SpecStmt, int)>
    decreases toks.len() - pos, 14int,
{
    if !(0 <= pos < toks.len()) {
        None
    } else {
        match spec_parse_expression(toks, pos) {
            None => None,
            Some((e, pr)) => {
                let p1 = step_pos(toks, pos, pr);
                if peek_is(toks, p1, TokenType::Semicolon) {
                    Some((SpecStmt::Print { expression: e }, p1 + 1))
                } else {
                    None
                }
            },
        }
    }
}

/// `IDENT ("=" expression)? ";"`, from after the `var` keyword: an omitted
/// initializer stands for the `null` literal.
pub open spec fn spec_parse_var_decl(toks: Seq<Token>, pos: int) -> Option<(SpecStmt, int)>
    decreases toks.len() - pos, 14int,
{
    if !(0 <= pos < toks.len()) {
        None
    } else if peek_is(toks, pos, TokenType::Identifier) {
        match toks[pos].lexeme {
            None => None,
            Some(name) => {
                if peek_is(toks, pos + 1, TokenType::Equal) {
                    match spec_parse_expression(toks, pos + 2) {
                        None => None,
                        Some((e, pr)) => {
                            let p1 = step_pos(toks, pos + 2, pr);
                            if peek_is(toks, p1, TokenType::Semicolon) {
                                Some((SpecStmt::Var { name, right: e }, p1 + 1))
                            } else {
                                None
                            }
                        },
                    }
                } else if peek_is(toks, pos + 1, TokenType::Semicolon) {
                    Some(
                        (
                            SpecStmt::Var {
                                name,
                                right: Expr::Literal(Literal { value: Value::Null }),
                            },
                            pos + 2,
                        ),
                    )
                } else {
                    None
                }
            },
        }
    } else {
        None
    }
}

/// `ifStmt → "(" expression ")" statement ("else" statement)?`, from after
/// the `if` keyword.
pub open spec fn spec_parse_if(toks: Seq<Token>, pos: int) -> Option<(SpecStmt, int)>
    decreases toks.len() - pos, 14int,
{
    if !(0 <= pos < toks.len()) {
        None
    } else if peek_is(toks, pos, TokenType::LeftParen) {
        match spec_parse_expression(toks, pos + 1) {
            None => None,
            Some((c, pr)) => {
                let p1 = step_pos(toks, pos + 1, pr);
                if peek_is(toks, p1, TokenType::RightParen) {
                    match spec_parse_statement(toks, p1 + 1) {
                        None => None,
                        Some((thenb, p2r)) => {
                            let p2 = step_pos(toks, p1 + 1, p2r);
                            if peek_is(toks, p2, TokenType::Else) {
                                match spec_parse_statement(toks, p2 + 1) {
                                    None => None,
                                    Some((elseb, p3r)) => Some(
                                        (
                                            SpecStmt::If {
                                                condition: c,
                                                then_branch: Box::new(thenb),
                                                else_branch: Some(Box::new(elseb)),
                                            },
                                            step_pos(toks, p2 + 1, p3r),
                                        ),
                                    ),
                                }
                            } else {
                                Some(
                                    (
                                        SpecStmt::If {
                                            condition: c,
                                            then_branch: Box::new(thenb),
                                            else_branch: None,
                                        },
                                        p2,
                                    ),
                                )
                            }
                        },
                    }
                } else {
                    None
                }
            },
        }
    } else {
        None
    }
}

/// `whileStmt → "(" expression ")" statement`, from after the `while`
/// keyword.
pub open spec fn spec_parse_while(toks: Seq<Token>, pos: int) -> Option<(SpecStmt, int)>
    decreases toks.len() - pos, 14int,
{
    if !(0 <= pos < toks.len()) {
        None
    } else if peek_is(toks, pos, TokenType::LeftParen) {
        match spec_parse_expression(toks, pos + 1) {
            None => None,
            Some((c, pr)) => {
                let p1 = step_pos(toks, pos + 1, pr);
                if peek_is(toks, p1, TokenType::RightParen) {
                    match spec_parse_statement(toks, p1 + 1) {
                        None => None,
                        Some((b, pb)) => Some(
                            (
                                SpecStmt::While { condition: c, body: Box::new(b) },
                                step_pos(toks, p1 + 1, pb),
                            ),
                        ),
                    }
                } else {
                    None
                }
            },
        }
    } else {
        None
    }
}

/// The header of a `for` statement, from after the keyword: `"("
/// (varDecl|exprStmt|";") expression? ";" expression?`, stopping before the
/// closing `")"`. An omitted condition stands for the `true` literal.
pub open spec fn spec_for_header(toks: Seq<Token>, pos: int) -> Option<
    ((Option<SpecStmt>, Expr, Option<Expr>), int),
>
    decreases toks.len() - pos, 13int,
{
    if !(0 <= pos < toks.len()) {
        None
    } else if peek_is(toks, pos, TokenType::LeftParen) {
        let init_step: Option<(Option<SpecStmt>, int)> = if peek_is(
            toks,
            pos + 1,
            TokenType::Semicolon,
        ) {
            Some((None, pos + 2))
        } else if peek_is(toks, pos + 1, TokenType::Var) {
            match spec_parse_var_decl(toks, pos + 2) {
                Some((st, pr)) => Some((Some(st), step_pos(toks, pos + 2, pr))),
                None => None,
            }
        } else {
            match spec_parse_expr_stmt(toks, pos + 1) {
                Some((st, pr)) => Some((Some(st), step_pos(toks, pos + 1, pr))),
                None => None,
            }
        };
        match init_step {
            None => None,
            Some((init, pi)) => {
                let cond_step: Option<(Expr, int)> = if peek_is(toks, pi, TokenType::Semicolon) {
                    Some((Expr::Literal(Literal { value: Value::True }), pi))
                } else {
                    match spec_parse_expression(toks, pi) {
                        Some((e, pr)) => Some((e, step_pos(toks, pi, pr))),
                        None => None,
                    }
                };
                match cond_step {
                    None => None,
                    Some((cond, pc)) => {
                        if peek_is(toks, pc, TokenType::Semicolon) {
                            let incr_step: Option<(Option<Expr>, int)> = if peek_is(
                                toks,
                                pc + 1,
                                TokenType::RightParen,
                            ) {
                                Some((None, pc + 1))
                            } else {
                                match spec_parse_expression(toks, pc + 1) {
                                    Some((e, pr)) => Some((Some(e), step_pos(toks, pc + 1, pr))),
                                    None => None,
                                }
                            };
                            match incr_step {
                                None => None,
                                Some((incr, pr2)) => Some(((init, cond, incr), pr2)),
                            }
                        } else {
                            None
                        }
                    },
                }
            },
        }
    } else {
        None
    }
}

/// The desugared statement a `for` loop stands for: `{ init; while (cond)
/// { body; incr; } }`, with an omitted increment leaving the body bare and
/// an omitted initializer leaving the `while` bare.
pub open spec fn spec_for_desugar(
    init: Option<SpecStmt>,
    cond: Expr,
    incr: Option<Expr>,
    body: SpecStmt,
) -> SpecStmt {
    let inner = match incr {
        Some(e) => SpecStmt::Block {
            statements: seq![body, SpecStmt::Expression { expression: e }],
        },
        None => body,
    };
    let looped = SpecStmt::While { condition: cond, body: Box::new(inner) };
    match init {
        Some(st) => SpecStmt::Block { statements: seq![st, looped] },
        None => looped,
    }
}

/// `forStmt → "(" (varDecl|exprStmt|";") expression? ";" expression? ")"
/// statement`, from after the `for` keyword. The result holds no loop node
/// of its own: it is the desugared form of [`spec_for_desugar`].
pub open spec fn spec_parse_for(toks: Seq<Token>, pos: int) -> Option<(SpecStmt, int)>
    decreases toks.len() - pos, 14int,
{
    if !(0 <= pos < toks.len()) {
        None
    } else {
        match spec_for_header(toks, pos) {
            None => None,
            Some(((init, cond, incr), pr2r)) => {
                let pr2 = step_pos(toks, pos, pr2r);
                if peek_is(toks, pr2, TokenType::RightParen) {
                    match spec_parse_statement(toks, pr2 + 1) {
                        None => None,
                        Some((body, pb)) => Some(
                            (
                                spec_for_desugar(init, cond, incr, body),
                                step_pos(toks, pr2 + 1, pb),
                            ),
                        ),
                    }
                } else {
                    None
                }
            },
        }
    }
}

/// `statement → forStmt | ifStmt | printStmt | whileStmt | block | exprStmt`
pub open spec fn spec_parse_statement(toks: Seq<Token>, pos: int) -> Option<(SpecStmt, int)>
    decreases toks.len() - pos, 15int,
{
    if !(0 <= pos < toks.len()) {
        None
    } else {
        match toks[pos].token_type {
            TokenType::For => spec_parse_for(toks, pos + 1),
            TokenType::If => spec_parse_if(toks, pos + 1),
            TokenType::Print => spec_parse_print(toks, pos + 1),
            TokenType::While => spec_parse_while(toks, pos + 1),
            TokenType::LeftBrace => match spec_parse_block_items(toks, pos + 1, Seq::empty()) {
                Some((ss, p1)) => Some((SpecStmt::Block { statements: ss }, p1)),
                None => None,
            },
            _ => spec_parse_expr_stmt(toks, pos),
        }
    }
}

/// `declaration → "var" IDENT ("=" expression)? ";" | statement`
pub open spec fn spec_parse_declaration(toks: Seq<Token>, pos: int) -> Option<(SpecStmt, int)>
    decreases toks.len() - pos, 16int,
{
    if !(0 <= pos < toks.len()) {
        None
    } else if peek_is(toks, pos, TokenType::Var) {
        spec_parse_var_decl(toks, pos + 1)
    } else {
        spec_parse_statement(toks, pos)
    }
}

/// The declarations collected inside a block, from after its `{` up to and
/// over the matching `}`.
pub open spec fn spec_parse_block_items(toks: Seq<Token>, pos: int, acc: Seq<SpecStmt>) -> Option<
    (Seq<SpecStmt>, int),
>
    decreases toks.len() - pos, 17int,
{
    if !(0 <= pos < toks.len()) {
        None
    } else if peek_is(toks, pos, TokenType::RightBrace) {
        Some((acc, pos + 1))
    } else {
        match spec_parse_declaration(toks, pos) {
            None => None,
            Some((st, pr)) => spec_parse_block_items(toks, step_pos(toks, pos, pr), acc.push(st)),
        }
    }
}

/// The declarations collected from a position up to the end of the stream:
/// the whole program when the position is the start.
pub open spec fn spec_parse_program_items(toks: Seq<Token>, pos: int, acc: Seq<SpecStmt>) -> Option<
    Seq<SpecStmt>,
>
    decreases toks.len() - pos, 18int,
{
    if pos < 0 {
        None
    } else if pos >= toks.len() {
        Some(acc)
    } else {
        match spec_parse_declaration(toks, pos) {
            None => None,
            Some((st, pr)) => spec_parse_program_items(toks, step_pos(toks, pos, pr), acc.push(st)),
        }
    }
}

/// What the grammar derives from a whole token stream: the program's
/// statements, or `None` where the stream violates the grammar.
pub open spec fn spec_parse_program(toks: Seq<Token>) -> Option<Seq<SpecStmt>> {
    spec_parse_program_items(toks, 0, Seq::empty())
}

/// One step of the `if` rule: with the parenthesized condition, the then
/// branch and the optional else branch parsed, the rule yields the `if`
/// node.
proof fn lemma_if_step(
    toks: Seq<Token>,
    pos0: int,
    c: Expr,
    p1: int,
    thenb: SpecStmt,
    p2: int,
    elseb: Option<(SpecStmt, int)>,
)
    requires
        0 <= pos0 < toks.len(),
        peek_is(toks, pos0, TokenType::LeftParen),
        spec_parse_expression(toks, pos0 + 1) == Some((c, p1)),
        step_pos(toks, pos0 + 1, p1) == p1,
        peek_is(toks, p1, TokenType::RightParen),
        spec_parse_statement(toks, p1 + 1) == Some((thenb, p2)),
        step_pos(toks, p1 + 1, p2) == p2,
        elseb matches Some((es, p3)) ==> (peek_is(toks, p2, TokenType::Else)
            && spec_parse_statement(toks, p2 + 1) == Some((es, p3)) && step_pos(toks, p2 + 1, p3)
            == p3),
        elseb is None ==> !peek_is(toks, p2, TokenType::Else),
    ensures
        spec_parse_if(toks, pos0) == Some(
            (
                SpecStmt::If {
                    condition: c,
                    then_branch: Box::new(thenb),
                    else_branch: match elseb {
                        Some((e, _)) => Some(Box::new(e)),
                        None => None,
                    },
                },
                match elseb {
                    Some((_, p3)) => p3,
                    None => p2,
                },
            ),
        ),
{
}

/// One step of the `while` rule: with the parenthesized condition and the
/// body parsed, the rule yields the `while` node.
proof fn lemma_while_step(
    toks: Seq<Token>,
    pos0: int,
    c: Expr,
    p1: int,
    body: SpecStmt,
    pb: int,
)
    requires
        0 <= pos0 < toks.len(),
        peek_is(toks, pos0, TokenType::LeftParen),
        spec_parse_expression(toks, pos0 + 1) == Some((c, p1)),
        step_pos(toks, pos0 + 1, p1) == p1,
        peek_is(toks, p1, TokenType::RightParen),
        spec_parse_statement(toks, p1 + 1) == Some((body, pb)),
        step_pos(toks, p1 + 1, pb) == pb,
    ensures
        spec_parse_while(toks, pos0) == Some(
            (SpecStmt::While { condition: c, body: Box::new(body) }, pb),
        ),
{
}

/// One step of the `for` rule: with the header, the closing parenthesis
/// and the body parsed, the rule yields the desugared loop.
proof fn lemma_for_step(
    toks: Seq<Token>,
    pos0: int,
    init: Option<SpecStmt>,
    cond: Expr,
    incr: Option<Expr>,
    pr2: int,
    body: SpecStmt,
    pb: int,
)
    requires
        0 <= pos0 < toks.len(),
        spec_for_header(toks, pos0) == Some(((init, cond, incr), pr2)),
        step_pos(toks, pos0, pr2) == pr2,
        peek_is(toks, pr2, TokenType::RightParen),
        spec_parse_statement(toks, pr2 + 1) == Some((body, pb)),
        step_pos(toks, pr2 + 1, pb) == pb,
    ensures
        spec_parse_for(toks, pos0) == Some((spec_for_desugar(init, cond, incr, body), pb)),
{
}

/// Where the header, the closing parenthesis or the body is refused, so is
/// the whole `for` rule.
proof fn lemma_for_fails(toks: Seq<Token>, pos0: int)
    requires
        0 <= pos0 < toks.len() ==> match spec_for_header(toks, pos0) {
            None => true,
            Some(((init, cond, incr), pr2r)) => {
                let pr2 = step_pos(toks, pos0, pr2r);
                !peek_is(toks, pr2, TokenType::RightParen) || spec_parse_statement(toks, pr2 + 1)
                    is None
            },
        },
    ensures
        spec_parse_for(toks, pos0) is None,
{
}

/// The position of the `=` on which the assignment rule refuses the input
/// with the "Invalid assignment target" error: one follows a first operand
/// that is no bare variable. Opaque so that its callers' contracts carry no
/// weight of the grammar's definitions; the lemmas beside the rule reveal it.
#[verifier::opaque]
pub open spec fn spec_invalid_target(toks: Seq<Token>, pos: int) -> Option<int> {
    match spec_parse_or(toks, pos) {
        None => None,
        Some((e, pr)) => {
            let p1 = step_pos(toks, pos, pr);
            if !(e is Variable) && peek_is(toks, p1, TokenType::Equal) {
                Some(p1)
            } else {
                None
            }
        },
    }
}

/// The assignment rule meets the invalid-target error exactly when a first
/// operand that is no bare variable stands left of `=`.
proof fn lemma_invalid_target(toks: Seq<Token>, pos0: int, e: Expr, p1: int)
    requires
        spec_parse_or(toks, pos0) == Some((e, p1)),
        step_pos(toks, pos0, p1) == p1,
    ensures
        spec_invalid_target(toks, pos0) == (if !(e is Variable) && peek_is(
            toks,
            p1,
            TokenType::Equal,
        ) {
            Some(p1)
        } else {
            Option::<int>::None
        }),
{
    reveal(spec_invalid_target);
}

/// Where the first operand of the assignment rule is already refused, the
/// invalid-target error is not met.
proof fn lemma_no_invalid_target(toks: Seq<Token>, pos0: int)
    requires
        spec_parse_or(toks, pos0) is None,
    ensures
        spec_invalid_target(toks, pos0) is None,
{
    reveal(spec_invalid_target);
}

/// One step of the assignment rule:/// One step of the assignment rule: with the left operand parsed as a bare
/// variable and `=` next, the rule yields the assignment node whose value is
/// what the rest of the input derives.
proof fn lemma_assignment_step(toks: Seq<Token>, pos0: int, e: Expr, p1: int, value: Expr, p2: int)
    requires
        0 <= pos0 < toks.len(),
        spec_parse_or(toks, pos0) == Some((e, p1)),
        step_pos(toks, pos0, p1) == p1,
        peek_is(toks, p1, TokenType::Equal),
        e is Variable,
        spec_parse_assignment(toks, p1 + 1) == Some((value, p2)),
        step_pos(toks, p1 + 1, p2) == p2,
    ensures
        spec_parse_assignment(toks, pos0) == Some(
            (Expr::Assign(Assign { name: e->Variable_0.name, value: Box::new(value) }), p2),
        ),
{
}

/// Where the first operand, the assignment target or the assigned value is
/// refused, so is the whole assignment rule.
proof fn lemma_assignment_fails(toks: Seq<Token>, pos0: int)
    requires
        0 <= pos0 < toks.len() ==> match spec_parse_or(toks, pos0) {
            None => true,
            Some((e, pr)) => {
                let p1 = step_pos(toks, pos0, pr);
                peek_is(toks, p1, TokenType::Equal) && (!(e is Variable) || spec_parse_assignment(
                    toks,
                    p1 + 1,
                ) is None)
            },
        },
    ensures
        spec_parse_assignment(toks, pos0) is None,
{
}

/// Where no `=` follows the first operand, the assignment rule yields that
/// operand itself.
proof fn lemma_assignment_passes(toks: Seq<Token>, pos0: int, e: Expr, p1: int)
    requires
        0 <= pos0 < toks.len(),
        spec_parse_or(toks, pos0) == Some((e, p1)),
        step_pos(toks, pos0, p1) == p1,
        !peek_is(toks, p1, TokenType::Equal),
    ensures
        spec_parse_assignment(toks, pos0) == Some((e, p1)),
{
}

/// The recursive-descent parser over a scanned token stream.
#[derive(Debug)]
pub struct Parser {
    pub tokens: Tokens,
}

impl Parser {
    /// The cursor stands on or before the end of the stream.
    pub open spec fn wf(&self) -> bool {
        self.tokens.wf()
    }

    /// How many tokens are left to consume.
    pub open spec fn remaining(&self) -> int {
        self.tokens.remaining()
    }

    pub fn new(tokens: Vec<Token>) -> (p: Parser)
        ensures
            p.tokens.tokens == tokens,
            p.tokens.pos == 0,
            p.wf(),
    {
        Parser { tokens: Tokens::new(tokens) }
    }

    /// The whole program: statements until the stream is exhausted. The
    /// first grammar violation aborts the parse.
    pub fn parse(&mut self) -> (r: Result<Vec<Stmt>, Error>)
        requires
            old(self).wf(),
        ensures
            final(self).wf(),
            final(self).tokens.tokens == old(self).tokens.tokens,
            r is Ok ==> final(self).tokens.pos == final(self).tokens.tokens@.len(),
            r is Ok ==> stmts_well_shaped(r->Ok_0@),
            r is Err ==> r->Err_0.kind is ParserError,
            r is Ok ==> spec_parse_program_items(
                old(self).tokens.tokens@,
                old(self).tokens.pos as int,
                Seq::empty(),
            ) == Some(stmts_view(r->Ok_0@)),
            r is Err ==> spec_parse_program_items(
                old(self).tokens.tokens@,
                old(self).tokens.pos as int,
                Seq::empty(),
            ) is None,
    {
        let ghost toks = self.tokens.tokens@;
        let ghost pos0 = self.tokens.pos as int;
        let mut result: Vec<Stmt> = Vec::new();
        proof {
            assert(stmts_well_shaped(result@));
            assert(stmts_view(result@) =~= Seq::<SpecStmt>::empty());
        }
        loop
            invariant
                self.wf(),
                self.tokens.tokens == old(self).tokens.tokens,
                toks == self.tokens.tokens@,
                pos0 == old(self).tokens.pos as int,
                stmts_well_shaped(result@),
                spec_parse_program_items(toks, pos0, Seq::empty())
                    == spec_parse_program_items(toks, self.tokens.pos as int, stmts_view(result@)),
            decreases self.remaining(),
        {
            if self.tokens.pos >= self.tokens.tokens.len() {
                return Ok(result);
            }
            let ghost p = self.tokens.pos as int;
            match self.declaration() {
                Ok(s) => {
                    let ghost before = result@;
                    result.push(s);
                    proof {
                        assert(result@.drop_last() =~= before);
                        assert(stmts_view(result@) =~= stmts_view(before).push(stmt_view(s)));
                        assert(step_pos(toks, p, self.tokens.pos as int)
                            == self.tokens.pos as int);
                    }
                },
                Err(e) => {
                    return Err(e);
                },
            }
        }
    }

    /// `declaration → "var" IDENT ("=" expression)? ";" | statement`
    fn declaration(&mut self) -> (r: Result<Stmt, Error>)
        requires
            old(self).wf(),
        ensures
            final(self).wf(),
            final(self).tokens.tokens == old(self).tokens.tokens,
            final(self).tokens.pos >= old(self).tokens.pos,
            r is Ok ==> final(self).tokens.pos > old(self).tokens.pos,
            r is Ok ==> stmt_well_shaped(r->Ok_0),
            r is Err ==> r->Err_0.kind is ParserError,
            r is Ok ==> spec_parse_declaration(old(self).tokens.tokens@, old(self).tokens.pos as int)
                == Some((stmt_view(r->Ok_0), final(self).tokens.pos as int)),
            r is Err ==> spec_parse_declaration(old(self).tokens.tokens@, old(self).tokens.pos as int) is None,
        decreases old(self).remaining(), 20int,
    {
        if self.tokens.at_kind(TokenType::Var) {
            self.tokens.next();
            self.var_declaration()
        } else {
            self.statement()
        }
    }

    /// After `var`: the variable name, an optional initializer, `;`.
    fn var_declaration(&mut self) -> (r: Result<Stmt, Error>)
        requires
            old(self).wf(),
        ensures
            final(self).wf(),
            final(self).tokens.tokens == old(self).tokens.tokens,
            final(self).tokens.pos >= old(self).tokens.pos,
            r is Ok ==> final(self).tokens.pos > old(self).tokens.pos,
            r is Ok ==> stmt_well_shaped(r->Ok_0),
            r is Err ==> r->Err_0.kind is ParserError,
            r is Ok ==> spec_parse_var_decl(old(self).tokens.tokens@, old(self).tokens.pos as int)
                == Some((stmt_view(r->Ok_0), final(self).tokens.pos as int)),
            r is Err ==> spec_parse_var_decl(old(self).tokens.tokens@, old(self).tokens.pos as int) is None,
        decreases old(self).remaining(), 18int,
    {
        let ghost toks = self.tokens.tokens@;
        let ghost pos0 = self.tokens.pos as int;
        let token = match self.tokens.consume_kind(TokenType::Identifier, "Expect variable name") {
            Ok(t) => t,
            Err(e) => {
                return Err(e);
            },
        };
        let name = match &token.lexeme {
            Some(s) => s.clone(),
            None => {
                return Err(
                    Error::new(
                        ErrorKind::ParserError {
                            token: Some(token),
                            message: String::from_str("Expect variable name"),
                        },
                    ),
                );
            },
        };
        let initializer: Expr = if self.tokens.at_kind(TokenType::Equal) {
            self.tokens.next();
            match self.expression() {
                Ok(e) => e,
                Err(e) => {
                    return Err(e);
                },
            }
        } else {
            Expr::Literal(Literal::new(Value::Null))
        };
        let ghost p1 = self.tokens.pos as int;
        proof {
            if peek_is(toks, pos0 + 1, TokenType::Equal) {
                assert(step_pos(toks, pos0 + 2, p1) == p1);
            }
        }
        match self.tokens.consume_kind(TokenType::Semicolon, "Expect \";\" after expression") {
            Ok(_) => {},
            Err(e) => {
                return Err(e);
            },
        }
        Ok(Stmt::Var(Var::new(name, Box::new(initializer))))
    }

    /// `statement → forStmt | ifStmt | printStmt | whileStmt | block | exprStmt`
    #[verifier::rlimit(100)]
    fn statement(&mut self) -> (r: Result<Stmt, Error>)
        requires
            old(self).wf(),
        ensures
            final(self).wf(),
            final(self).tokens.tokens == old(self).tokens.tokens,
            final(self).tokens.pos >= old(self).tokens.pos,
            r is Ok ==> final(self).tokens.pos > old(self).tokens.pos,
            r is Ok ==> stmt_well_shaped(r->Ok_0),
            r is Err ==> r->Err_0.kind is ParserError,
            r is Ok ==> spec_parse_statement(old(self).tokens.tokens@, old(self).tokens.pos as int)
                == Some((stmt_view(r->Ok_0), final(self).tokens.pos as int)),
            r is Err ==> spec_parse_statement(old(self).tokens.tokens@, old(self).tokens.pos as int) is None,
        decreases old(self).remaining(), 19int,
    {
        let ghost toks = self.tokens.tokens@;
        let ghost pos0 = self.tokens.pos as int;
        proof {
            assert(0 <= pos0);
        }
        if self.tokens.at_kind(TokenType::For) {
            self.tokens.next();
            let r = self.for_statement();
            proof {
                assert(spec_parse_statement(toks, pos0) == spec_parse_for(toks, pos0 + 1));
            }
            return r;
        }
        if self.tokens.at_kind(TokenType::If) {
            self.tokens.next();
            let r = self.if_statement();
            proof {
                assert(spec_parse_statement(toks, pos0) == spec_parse_if(toks, pos0 + 1));
            }
            return r;
        }
        if self.tokens.at_kind(TokenType::Print) {
            self.tokens.next();
            let r = self.print_statement();
            proof {
                assert(spec_parse_statement(toks, pos0) == spec_parse_print(toks, pos0 + 1));
            }
            return r;
        }
        if self.tokens.at_kind(TokenType::While) {
            self.tokens.next();
            let r = self.while_statement();
            proof {
                assert(spec_parse_statement(toks, pos0) == spec_parse_while(toks, pos0 + 1));
            }
            return r;
        }
        if self.tokens.at_kind(TokenType::LeftBrace) {
            self.tokens.next();
            let r = self.block();
            proof {
                if 0 <= pos0 < toks.len() {
                    assert(spec_parse_statement(toks, pos0) == (
                    match spec_parse_block_items(toks, pos0 + 1, Seq::empty()) {
                        Some((ss, p1)) => Some((SpecStmt::Block { statements: ss }, p1)),
                        None => None,
                    }));
                }
            }
            return r;
        }
        let r = self.expression_statement();
        proof {
            if 0 <= pos0 < toks.len() {
                assert(spec_parse_statement(toks, pos0) == spec_parse_expr_stmt(toks, pos0));
            }
        }
        r
    }

    /// Builds the desugared statement a `for` loop stands for, per
    /// [`spec_for_desugar`].
    fn desugar_for(
        initializer: Option<Stmt>,
        condition: Expr,
        increment: Option<Expr>,
        body: Stmt,
    ) -> (r: Stmt)
        requires
            (initializer matches Some(st) ==> stmt_well_shaped(st)),
            expr_well_shaped(condition),
            (increment matches Some(e) ==> expr_well_shaped(e)),
            stmt_well_shaped(body),
        ensures
            stmt_well_shaped(r),
            stmt_view(r) == spec_for_desugar(
                match initializer {
                    Some(st) => Some(stmt_view(st)),
                    None => None,
                },
                condition,
                increment,
                stmt_view(body),
            ),
    {
        let ghost init_view: Option<SpecStmt> = match &initializer {
            Some(st) => Some(stmt_view(*st)),
            None => None,
        };
        let ghost body_view = stmt_view(body);
        let mut desugared = body;
        match increment {
            Some(incr) => {
                let ghost iv = incr;
                let mut statements: Vec<Stmt> = Vec::new();
                statements.push(desugared);
                let increment_statement = Stmt::Expression(ExpressionStatement::new(Box::new(incr)));
                proof {
                    assert(stmt_well_shaped(increment_statement));
                }
                statements.push(increment_statement);
                proof {
                    let ss = statements@;
                    assert(ss.len() == 2);
                    assert(stmts_well_shaped(Seq::<Stmt>::empty()));
                    assert(ss.drop_last().drop_last() =~= Seq::<Stmt>::empty());
                    assert(stmts_view(ss.drop_last().drop_last()) =~= Seq::<SpecStmt>::empty());
                    assert(ss.drop_last().last() == ss[0]);
                    assert(stmts_well_shaped(ss.drop_last()));
                    assert(stmt_well_shaped(ss.last()));
                    assert(stmts_well_shaped(ss));
                    assert(stmt_view(ss[0]) == body_view);
                    assert(stmts_view(ss.drop_last()) =~= seq![body_view]);
                    assert(ss.last() == ss[1]);
                    assert(stmt_view(ss[1]) == SpecStmt::Expression { expression: iv });
                    assert(stmts_view(ss) =~= stmts_view(ss.drop_last()).push(stmt_view(ss[1])));
                    assert(stmts_view(ss) =~= seq![
                        body_view,
                        SpecStmt::Expression { expression: iv },
                    ]);
                }
                let block_statement = Stmt::Block(Block::new(statements));
                proof {
                    assert(stmt_well_shaped(block_statement));
                }
                desugared = block_statement;
                proof {
                    assert(stmt_view(desugared) == SpecStmt::Block {
                        statements: seq![body_view, SpecStmt::Expression { expression: iv }],
                    });
                }
            },
            None => {},
        }
        let ghost inner_view = stmt_view(desugared);
        desugared = Stmt::While(While::new(Box::new(condition), Box::new(desugared)));
        proof {
            assert(stmt_well_shaped(desugared));
            assert(stmt_view(desugared) == SpecStmt::While {
                condition: condition,
                body: Box::new(inner_view),
            });
        }
        match initializer {
            Some(init) => {
                let ghost looped_view = stmt_view(desugared);
                let mut statements: Vec<Stmt> = Vec::new();
                statements.push(init);
                statements.push(desugared);
                proof {
                    let ss = statements@;
                    assert(ss.len() == 2);
                    assert(stmts_well_shaped(Seq::<Stmt>::empty()));
                    assert(ss.drop_last().drop_last() =~= Seq::<Stmt>::empty());
                    assert(stmts_view(ss.drop_last().drop_last()) =~= Seq::<SpecStmt>::empty());
                    assert(ss.drop_last().last() == ss[0]);
                    assert(stmts_well_shaped(ss.drop_last()));
                    assert(stmt_well_shaped(ss.last()));
                    assert(stmts_well_shaped(ss));
                    assert(stmt_view(ss[0]) == init_view->0);
                    assert(stmts_view(ss.drop_last()) =~= seq![init_view->0]);
                    assert(ss.last() == ss[1]);
                    assert(stmt_view(ss[1]) == looped_view);
                    assert(stmts_view(ss) =~= stmts_view(ss.drop_last()).push(stmt_view(ss[1])));
                    assert(stmts_view(ss) =~= seq![init_view->0, looped_view]);
                }
                desugared = Stmt::Block(Block::new(statements));
            },
            None => {},
        }
        desugared
    }

    /// After `for`: desugars `for (init; cond; incr) body` at parse time to
    /// `{ init; while (cond) { body; incr; } }` — no separate loop node.
    /// The header of a `for` statement: its parenthesized initializer,
    /// condition and increment clauses, up to before the closing `)`.
    fn for_header(&mut self) -> (r: Result<(Option<Stmt>, Expr, Option<Expr>), Error>)
        requires
            old(self).wf(),
        ensures
            final(self).wf(),
            final(self).tokens.tokens == old(self).tokens.tokens,
            final(self).tokens.pos >= old(self).tokens.pos,
            r is Ok ==> final(self).tokens.pos > old(self).tokens.pos,
            r is Ok ==> ({
                let (init, cond, incr) = r->Ok_0;
                &&& (init matches Some(st) ==> stmt_well_shaped(st))
                &&& expr_well_shaped(cond)
                &&& (incr matches Some(e) ==> expr_well_shaped(e))
                &&& spec_for_header(old(self).tokens.tokens@, old(self).tokens.pos as int)
                    == Some(
                    (
                        (
                            match init {
                                Some(st) => Some(stmt_view(st)),
                                None => None,
                            },
                            cond,
                            match incr {
                                Some(e) => Some(e),
                                None => None,
                            },
                        ),
                        final(self).tokens.pos as int,
                    ),
                )
            }),
            r is Err ==> r->Err_0.kind is ParserError,
            r is Err ==> spec_for_header(old(self).tokens.tokens@, old(self).tokens.pos as int)
                is None,
        decreases old(self).remaining(), 17int,
    {
        let ghost toks = self.tokens.tokens@;
        let ghost pos0 = self.tokens.pos as int;
        match self.tokens.consume_kind(TokenType::LeftParen, "Expect \"(\" after \"for\"") {
            Ok(_) => {},
            Err(e) => {
                return Err(e);
            },
        }
        let initializer: Option<Stmt> = if self.tokens.at_kind(TokenType::Semicolon) {
            self.tokens.next();
            None
        } else if self.tokens.at_kind(TokenType::Var) {
            self.tokens.next();
            match self.var_declaration() {
                Ok(s) => Some(s),
                Err(e) => {
                    return Err(e);
                },
            }
        } else {
            match self.expression_statement() {
                Ok(s) => Some(s),
                Err(e) => {
                    return Err(e);
                },
            }
        };
        let ghost pi = self.tokens.pos as int;
        proof {
            if peek_is(toks, pos0 + 1, TokenType::Var) {
                assert(step_pos(toks, pos0 + 2, pi) == pi);
            }
            if !peek_is(toks, pos0 + 1, TokenType::Semicolon) && !peek_is(
                toks,
                pos0 + 1,
                TokenType::Var,
            ) {
                assert(step_pos(toks, pos0 + 1, pi) == pi);
            }
        }
        let condition: Expr = if self.tokens.at_kind(TokenType::Semicolon) {
            Expr::Literal(Literal::new(Value::True))
        } else {
            match self.expression() {
                Ok(e) => e,
                Err(e) => {
                    return Err(e);
                },
            }
        };
        let ghost pc = self.tokens.pos as int;
        proof {
            assert(expr_well_shaped(condition));
            if !peek_is(toks, pi, TokenType::Semicolon) {
                assert(step_pos(toks, pi, pc) == pc);
            }
        }
        match self.tokens.consume_kind(TokenType::Semicolon, "Expect \";\" after condition") {
            Ok(_) => {},
            Err(e) => {
                return Err(e);
            },
        }
        let increment: Option<Expr> = if self.tokens.at_kind(TokenType::RightParen) {
            None
        } else {
            match self.expression() {
                Ok(e) => Some(e),
                Err(e) => {
                    return Err(e);
                },
            }
        };
        proof {
            if !peek_is(toks, pc + 1, TokenType::RightParen) {
                assert(step_pos(toks, pc + 1, self.tokens.pos as int) == self.tokens.pos as int);
            }
        }
        Ok((initializer, condition, increment))
    }

    /// After `for`: desugars `for (init; cond; incr) body` at parse time to
    /// `{ init; while (cond) { body; incr; } }` — no separate loop node.
    #[verifier::rlimit(100)]
    fn for_statement(&mut self) -> (r: Result<Stmt, Error>)
        requires
            old(self).wf(),
        ensures
            final(self).wf(),
            final(self).tokens.tokens == old(self).tokens.tokens,
            final(self).tokens.pos >= old(self).tokens.pos,
            r is Ok ==> final(self).tokens.pos > old(self).tokens.pos,
            r is Ok ==> stmt_well_shaped(r->Ok_0),
            r is Err ==> r->Err_0.kind is ParserError,
            r is Ok ==> spec_parse_for(old(self).tokens.tokens@, old(self).tokens.pos as int)
                == Some((stmt_view(r->Ok_0), final(self).tokens.pos as int)),
            r is Err ==> spec_parse_for(old(self).tokens.tokens@, old(self).tokens.pos as int)
                is None,
        decreases old(self).remaining(), 18int,
    {
        let ghost toks = self.tokens.tokens@;
        let ghost pos0 = self.tokens.pos as int;
        let (initializer, condition, increment) = match self.for_header() {
            Ok(h) => h,
            Err(e) => {
                proof {
                    lemma_for_fails(toks, pos0);
                }
                return Err(e);
            },
        };
        let ghost pr2 = self.tokens.pos as int;
        let ghost init_view: Option<SpecStmt> = match &initializer {
            Some(st) => Some(stmt_view(*st)),
            None => None,
        };
        let ghost incr_view: Option<Expr> = match &increment {
            Some(e) => Some(*e),
            None => None,
        };
        proof {
            assert(step_pos(toks, pos0, pr2) == pr2);
        }
        match self.tokens.consume_kind(TokenType::RightParen, "Expect \")\" after clauses") {
            Ok(_) => {},
            Err(e) => {
                proof {
                    lemma_for_fails(toks, pos0);
                }
                return Err(e);
            },
        }
        let mut body = match self.statement() {
            Ok(s) => s,
            Err(e) => {
                proof {
                    lemma_for_fails(toks, pos0);
                }
                return Err(e);
            },
        };
        let ghost pb = self.tokens.pos as int;
        let ghost body_view = stmt_view(body);
        proof {
            assert(step_pos(toks, pr2 + 1, pb) == pb);
            lemma_for_step(toks, pos0, init_view, condition, incr_view, pr2, body_view, pb);
        }
        Ok(Parser::desugar_for(initializer, condition, increment, body))
    }

    /// After `while`: `"(" expression ")" statement`.
    #[verifier::rlimit(100)]
    fn while_statement(&mut self) -> (r: Result<Stmt, Error>)
        requires
            old(self).wf(),
        ensures
            final(self).wf(),
            final(self).tokens.tokens == old(self).tokens.tokens,
            final(self).tokens.pos >= old(self).tokens.pos,
            r is Ok ==> final(self).tokens.pos > old(self).tokens.pos,
            r is Ok ==> stmt_well_shaped(r->Ok_0),
            r is Err ==> r->Err_0.kind is ParserError,
            r is Ok ==> spec_parse_while(old(self).tokens.tokens@, old(self).tokens.pos as int)
                == Some((stmt_view(r->Ok_0), final(self).tokens.pos as int)),
            r is Err ==> spec_parse_while(old(self).tokens.tokens@, old(self).tokens.pos as int) is None,
        decreases old(self).remaining(), 18int,
    {
        let ghost toks = self.tokens.tokens@;
        let ghost pos0 = self.tokens.pos as int;
        match self.tokens.consume_kind(TokenType::LeftParen, "Expect \"(\" after \"while\"") {
            Ok(_) => {},
            Err(e) => {
                proof {
                    assert(spec_parse_while(toks, pos0) is None);
                }
                return Err(e);
            },
        }
        let condition = match self.expression() {
            Ok(e) => e,
            Err(e) => {
                proof {
                    assert(spec_parse_while(toks, pos0) is None);
                }
                return Err(e);
            },
        };
        let ghost p1 = self.tokens.pos as int;
        proof {
            assert(step_pos(toks, pos0 + 1, p1) == p1);
        }
        match self.tokens.consume_kind(TokenType::RightParen, "Expect \")\" after while condition") {
            Ok(_) => {},
            Err(e) => {
                proof {
                    assert(!peek_is(toks, p1, TokenType::RightParen));
                    assert(spec_parse_while(toks, pos0) is None);
                }
                return Err(e);
            },
        }
        let body = match self.statement() {
            Ok(s) => s,
            Err(e) => {
                proof {
                    assert(spec_parse_statement(toks, p1 + 1) is None);
                    assert(spec_parse_while(toks, pos0) is None);
                }
                return Err(e);
            },
        };
        let ghost pb = self.tokens.pos as int;
        proof {
            assert(step_pos(toks, p1 + 1, pb) == pb);
            lemma_while_step(toks, pos0, condition, p1, stmt_view(body), pb);
        }
        let ghost body_view = stmt_view(body);
        let st = Stmt::While(While::new(Box::new(condition), Box::new(body)));
        proof {
            assert(stmt_view(st) == SpecStmt::While {
                condition: condition,
                body: Box::new(body_view),
            });
        }
        Ok(st)
    }

    /// After `if`: `"(" expression ")" statement ("else" statement)?`.
    #[verifier::rlimit(100)]
    fn if_statement(&mut self) -> (r: Result<Stmt, Error>)
        requires
            old(self).wf(),
        ensures
            final(self).wf(),
            final(self).tokens.tokens == old(self).tokens.tokens,
            final(self).tokens.pos >= old(self).tokens.pos,
            r is Ok ==> final(self).tokens.pos > old(self).tokens.pos,
            r is Ok ==> stmt_well_shaped(r->Ok_0),
            r is Err ==> r->Err_0.kind is ParserError,
            r is Ok ==> spec_parse_if(old(self).tokens.tokens@, old(self).tokens.pos as int)
                == Some((stmt_view(r->Ok_0), final(self).tokens.pos as int)),
            r is Err ==> spec_parse_if(old(self).tokens.tokens@, old(self).tokens.pos as int) is None,
        decreases old(self).remaining(), 18int,
    {
        let ghost toks = self.tokens.tokens@;
        let ghost pos0 = self.tokens.pos as int;
        match self.tokens.consume_kind(TokenType::LeftParen, "Expect \"(\" after \"if\"") {
            Ok(_) => {},
            Err(e) => {
                proof {
                    assert(spec_parse_if(toks, pos0) is None);
                }
                return Err(e);
            },
        }
        let condition = match self.expression() {
            Ok(e) => e,
            Err(e) => {
                proof {
                    assert(spec_parse_if(toks, pos0) is None);
                }
                return Err(e);
            },
        };
        let ghost p1 = self.tokens.pos as int;
        proof {
            assert(step_pos(toks, pos0 + 1, p1) == p1);
        }
        match self.tokens.consume_kind(TokenType::RightParen, "Expect \")\" after if condition") {
            Ok(_) => {},
            Err(e) => {
                proof {
                    assert(!peek_is(toks, p1, TokenType::RightParen));
                    assert(spec_parse_if(toks, pos0) is None);
                }
                return Err(e);
            },
        }
        let then_branch = match self.statement() {
            Ok(s) => s,
            Err(e) => {
                proof {
                    assert(spec_parse_statement(toks, p1 + 1) is None);
                    assert(spec_parse_if(toks, pos0) is None);
                }
                return Err(e);
            },
        };
        let ghost p2 = self.tokens.pos as int;
        let ghost then_view = stmt_view(then_branch);
        proof {
            assert(step_pos(toks, p1 + 1, p2) == p2);
        }
        let else_branch: Option<Box<Stmt>> = if self.tokens.at_kind(TokenType::Else) {
            self.tokens.next();
            match self.statement() {
                Ok(s) => Some(Box::new(s)),
                Err(e) => {
                    proof {
                        assert(spec_parse_statement(toks, p2 + 1) is None);
                        assert(spec_parse_if(toks, pos0) is None);
                    }
                    return Err(e);
                },
            }
        } else {
            None
        };
        let ghost p3 = self.tokens.pos as int;
        proof {
            if else_branch is Some {
                assert(step_pos(toks, p2 + 1, p3) == p3);
                lemma_if_step(
                    toks,
                    pos0,
                    condition,
                    p1,
                    then_view,
                    p2,
                    Some((stmt_view(*else_branch->0), p3)),
                );
            } else {
                lemma_if_step(toks, pos0, condition, p1, then_view, p2, None);
            }
        }
        let ghost else_view: Option<Box<SpecStmt>> = match &else_branch {
            Some(b) => Some(Box::new(stmt_view(**b))),
            None => None,
        };
        let st = Stmt::If(If::new(Box::new(condition), Box::new(then_branch), else_branch));
        proof {
            assert(stmt_view(st) == SpecStmt::If {
                condition: condition,
                then_branch: Box::new(then_view),
                else_branch: else_view,
            });
        }
        Ok(st)
    }

    /// After `{`: declarations up to the matching `}`; a new scope at run
    /// time.
    fn block(&mut self) -> (r: Result<Stmt, Error>)
        requires
            old(self).wf(),
        ensures
            final(self).wf(),
            final(self).tokens.tokens == old(self).tokens.tokens,
            final(self).tokens.pos >= old(self).tokens.pos,
            r is Ok ==> final(self).tokens.pos > old(self).tokens.pos,
            r is Ok ==> stmt_well_shaped(r->Ok_0),
            r is Err ==> r->Err_0.kind is ParserError,
            r is Ok ==> (spec_parse_block_items(
                old(self).tokens.tokens@,
                old(self).tokens.pos as int,
                Seq::empty(),
            ) matches Some((ss, p)) && stmt_view(r->Ok_0) == SpecStmt::Block { statements: ss }
                && final(self).tokens.pos == p),
            r is Err ==> spec_parse_block_items(
                old(self).tokens.tokens@,
                old(self).tokens.pos as int,
                Seq::empty(),
            ) is None,
        decreases old(self).remaining(), 21int,
    {
        let ghost toks = self.tokens.tokens@;
        let ghost pos0 = self.tokens.pos as int;
        let mut statements: Vec<Stmt> = Vec::new();
        proof {
            assert(stmts_well_shaped(statements@));
            assert(stmts_view(statements@) =~= Seq::<SpecStmt>::empty());
        }
        loop
            invariant
                self.wf(),
                self.tokens.tokens == old(self).tokens.tokens,
                toks == self.tokens.tokens@,
                pos0 == old(self).tokens.pos as int,
                self.tokens.pos >= old(self).tokens.pos,
                stmts_well_shaped(statements@),
                spec_parse_block_items(toks, pos0, Seq::empty()) == spec_parse_block_items(
                    toks,
                    self.tokens.pos as int,
                    stmts_view(statements@),
                ),
            decreases self.remaining(),
        {
            if self.tokens.at_kind(TokenType::RightBrace) {
                match self.tokens.consume_kind(TokenType::RightBrace, "Expect \"}\" after block") {
                    Ok(_) => {},
                    Err(e) => {
                        proof {
                            assert(false);
                        }
                        return Err(e);
                    },
                }
                return Ok(Stmt::Block(Block::new(statements)));
            }
            let ghost p = self.tokens.pos as int;
            match self.declaration() {
                Ok(s) => {
                    let ghost before = statements@;
                    statements.push(s);
                    proof {
                        assert(statements@.drop_last() =~= before);
                        assert(stmts_view(statements@) =~= stmts_view(before).push(stmt_view(s)));
                        assert(step_pos(toks, p, self.tokens.pos as int)
                            == self.tokens.pos as int);
                    }
                },
                Err(e) => {
                    proof {
                        assert(spec_parse_block_items(toks, p, stmts_view(statements@)) is None);
                    }
                    return Err(e);
                },
            }
        }
    }

    /// `print expression ;`
    fn print_statement(&mut self) -> (r: Result<Stmt, Error>)
        requires
            old(self).wf(),
        ensures
            final(self).wf(),
            final(self).tokens.tokens == old(self).tokens.tokens,
            final(self).tokens.pos >= old(self).tokens.pos,
            r is Ok ==> final(self).tokens.pos > old(self).tokens.pos,
            r is Ok ==> stmt_well_shaped(r->Ok_0),
            r is Err ==> r->Err_0.kind is ParserError,
            r is Ok ==> spec_parse_print(old(self).tokens.tokens@, old(self).tokens.pos as int)
                == Some((stmt_view(r->Ok_0), final(self).tokens.pos as int)),
            r is Err ==> spec_parse_print(old(self).tokens.tokens@, old(self).tokens.pos as int)
                is None,
        decreases old(self).remaining(), 18int,
    {
        let ghost toks = self.tokens.tokens@;
        let ghost pos0 = self.tokens.pos as int;
        let expression = match self.expression() {
            Ok(e) => e,
            Err(e) => {
                return Err(e);
            },
        };
        let ghost p1 = self.tokens.pos as int;
        proof {
            assert(step_pos(toks, pos0, p1) == p1);
        }
        match self.tokens.consume_kind(TokenType::Semicolon, "Expect \";\" after value") {
            Ok(_) => {},
            Err(e) => {
                return Err(e);
            },
        }
        Ok(Stmt::Print(Print::new(Box::new(expression))))
    }

    /// `expression ;`
    fn expression_statement(&mut self) -> (r: Result<Stmt, Error>)
        requires
            old(self).wf(),
        ensures
            final(self).wf(),
            final(self).tokens.tokens == old(self).tokens.tokens,
            final(self).tokens.pos >= old(self).tokens.pos,
            r is Ok ==> final(self).tokens.pos > old(self).tokens.pos,
            r is Ok ==> stmt_well_shaped(r->Ok_0),
            r is Err ==> r->Err_0.kind is ParserError,
            r is Ok ==> spec_parse_expr_stmt(old(self).tokens.tokens@, old(self).tokens.pos as int)
                == Some((stmt_view(r->Ok_0), final(self).tokens.pos as int)),
            r is Err ==> spec_parse_expr_stmt(
                old(self).tokens.tokens@,
                old(self).tokens.pos as int,
            ) is None,
        decreases old(self).remaining(), 18int,
    {
        let ghost toks = self.tokens.tokens@;
        let ghost pos0 = self.tokens.pos as int;
        let expression = match self.expression() {
            Ok(e) => e,
            Err(e) => {
                return Err(e);
            },
        };
        let ghost p1 = self.tokens.pos as int;
        proof {
            assert(step_pos(toks, pos0, p1) == p1);
        }
        match self.tokens.consume_kind(TokenType::Semicolon, "Expect \";\" after expression") {
            Ok(_) => {},
            Err(e) => {
                return Err(e);
            },
        }
        Ok(Stmt::Expression(ExpressionStatement::new(Box::new(expression))))
    }

    /// `expression → assignment ("," assignment)*` — the comma operator,
    /// built left-leaning.
    #[verifier::rlimit(100)]
    fn expression(&mut self) -> (r: Result<Expr, Error>)
        requires
            old(self).wf(),
        ensures
            final(self).wf(),
            final(self).tokens.tokens == old(self).tokens.tokens,
            final(self).tokens.pos >= old(self).tokens.pos,
            r is Ok ==> final(self).tokens.pos > old(self).tokens.pos,
            r is Ok ==> left_associative(r->Ok_0) && ternary_right_nested(r->Ok_0),
            r is Err ==> r->Err_0.kind is ParserError,
            r is Ok ==> spec_parse_expression(old(self).tokens.tokens@, old(self).tokens.pos as int)
                == Some((r->Ok_0, final(self).tokens.pos as int)),
            r is Err ==> spec_parse_expression(
                old(self).tokens.tokens@,
                old(self).tokens.pos as int,
            ) is None,
        decreases old(self).remaining(), 12int,
    {
        let ghost toks = self.tokens.tokens@;
        let ghost pos0 = self.tokens.pos as int;
        let mut expression = match self.assignment() {
            Ok(e) => e,
            Err(e) => {
                return Err(e);
            },
        };
        proof {
            assert(step_pos(toks, pos0, self.tokens.pos as int) == self.tokens.pos as int);
        }
        while self.tokens.at_kind(TokenType::Comma)
            invariant
                self.wf(),
                self.tokens.tokens == old(self).tokens.tokens,
                toks == self.tokens.tokens@,
                pos0 == old(self).tokens.pos as int,
                left_associative(expression) && ternary_right_nested(expression),
                self.tokens.pos > old(self).tokens.pos,
                spec_parse_expression(toks, pos0) == spec_parse_comma_tail(
                    toks,
                    self.tokens.pos as int,
                    expression,
                ),
            decreases self.remaining(),
        {
            let ghost p = self.tokens.pos as int;
            let operator = self.tokens.next().unwrap();
            let right = match self.assignment() {
                Ok(e) => e,
                Err(e) => {
                    return Err(e);
                },
            };
            proof {
                assert(step_pos(toks, p + 1, self.tokens.pos as int) == self.tokens.pos as int);
            }
            expression = Expr::Binary(Binary::new(Box::new(expression), operator, Box::new(right)));
        }
        Ok(expression)
    }

    /// `assignment → IDENT "=" assignment | logic_or` — only a bare variable
    /// is a legal assignment target.
    #[verifier::rlimit(100)]
    fn assignment(&mut self) -> (r: Result<Expr, Error>)
        requires
            old(self).wf(),
        ensures
            final(self).wf(),
            final(self).tokens.tokens == old(self).tokens.tokens,
            final(self).tokens.pos >= old(self).tokens.pos,
            r is Ok ==> final(self).tokens.pos > old(self).tokens.pos,
            r is Ok ==> left_associative(r->Ok_0) && ternary_right_nested(r->Ok_0)
                && top_at_equality_level(r->Ok_0),
            r is Err ==> r->Err_0.kind is ParserError,
            r is Ok ==> spec_parse_assignment(old(self).tokens.tokens@, old(self).tokens.pos as int)
                == Some((r->Ok_0, final(self).tokens.pos as int)),
            r is Err ==> spec_parse_assignment(
                old(self).tokens.tokens@,
                old(self).tokens.pos as int,
            ) is None,
            spec_invalid_target(old(self).tokens.tokens@, old(self).tokens.pos as int)
                matches Some(p1) ==> (r is Err && (
            r->Err_0.kind matches ErrorKind::ParserError { token, message } && token == Some(
                old(self).tokens.tokens@[p1],
            ) && message@ == "Invalid assignment target"@)),
        decreases old(self).remaining(), 11int,
    {
        let ghost toks = self.tokens.tokens@;
        let ghost pos0 = self.tokens.pos as int;
        let expression = match self.or() {
            Ok(e) => e,
            Err(e) => {
                proof {
                    lemma_assignment_fails(toks, pos0);
                    lemma_no_invalid_target(toks, pos0);
                }
                return Err(e);
            },
        };
        let ghost p1 = self.tokens.pos as int;
        proof {
            assert(step_pos(toks, pos0, p1) == p1);
            assert(spec_parse_or(toks, pos0) == Some((expression, p1)));
            lemma_invalid_target(toks, pos0, expression, p1);
        }
        if self.tokens.at_kind(TokenType::Equal) {
            let token = self.tokens.next();
            let name: String = match expression.as_variable() {
                Some(variable) => variable.name.clone(),
                None => {
                    proof {
                        lemma_assignment_fails(toks, pos0);
                    }
                    return Err(
                        Error::new(
                            ErrorKind::ParserError {
                                token,
                                message: String::from_str("Invalid assignment target"),
                            },
                        ),
                    );
                },
            };
            let value = match self.assignment() {
                Ok(e) => e,
                Err(e) => {
                    proof {
                        lemma_assignment_fails(toks, pos0);
                    }
                    return Err(e);
                },
            };
            let ghost p2 = self.tokens.pos as int;
            proof {
                assert(step_pos(toks, p1 + 1, p2) == p2);
                lemma_assignment_step(toks, pos0, expression, p1, value, p2);
            }
            return Ok(Expr::Assign(Assign::new(name, Box::new(value))));
        }
        proof {
            lemma_assignment_passes(toks, pos0, expression, p1);
        }
        Ok(expression)
    }

    /// `logic_or → logic_and ("or" logic_and)*`
    #[verifier::rlimit(100)]
    fn or(&mut self) -> (r: Result<Expr, Error>)
        requires
            old(self).wf(),
        ensures
            final(self).wf(),
            final(self).tokens.tokens == old(self).tokens.tokens,
            final(self).tokens.pos >= old(self).tokens.pos,
            r is Ok ==> final(self).tokens.pos > old(self).tokens.pos,
            r is Ok ==> left_associative(r->Ok_0) && ternary_right_nested(r->Ok_0)
                && top_at_equality_level(r->Ok_0),
            r is Err ==> r->Err_0.kind is ParserError,
            r is Ok ==> spec_parse_or(old(self).tokens.tokens@, old(self).tokens.pos as int) == Some(
                (r->Ok_0, final(self).tokens.pos as int),
            ),
            r is Err ==> spec_parse_or(old(self).tokens.tokens@, old(self).tokens.pos as int) is None,
        decreases old(self).remaining(), 10int,
    {
        let ghost toks = self.tokens.tokens@;
        let ghost pos0 = self.tokens.pos as int;
        let mut expression = match self.and() {
            Ok(e) => e,
            Err(e) => {
                return Err(e);
            },
        };
        proof {
            assert(step_pos(toks, pos0, self.tokens.pos as int) == self.tokens.pos as int);
        }
        while self.tokens.at_kind(TokenType::Or)
            invariant
                self.wf(),
                self.tokens.tokens == old(self).tokens.tokens,
                toks == self.tokens.tokens@,
                pos0 == old(self).tokens.pos as int,
                left_associative(expression) && ternary_right_nested(expression)
                    && top_at_equality_level(expression),
                self.tokens.pos > old(self).tokens.pos,
                spec_parse_or(toks, pos0) == spec_parse_or_tail(toks, self.tokens.pos as int, expression),
            decreases self.remaining(),
        {
            let ghost p = self.tokens.pos as int;
            let operator = self.tokens.next().unwrap();
            let right = match self.and() {
                Ok(e) => e,
                Err(e) => {
                    return Err(e);
                },
            };
            proof {
                assert(step_pos(toks, p + 1, self.tokens.pos as int) == self.tokens.pos as int);
            }
            expression = Expr::Logical(
                Logical::new(Box::new(expression), operator, Box::new(right)),
            );
        }
        Ok(expression)
    }

    /// `logic_and → equality ("and" equality)*`
    #[verifier::rlimit(100)]
    fn and(&mut self) -> (r: Result<Expr, Error>)
        requires
            old(self).wf(),
        ensures
            final(self).wf(),
            final(self).tokens.tokens == old(self).tokens.tokens,
            final(self).tokens.pos >= old(self).tokens.pos,
            r is Ok ==> final(self).tokens.pos > old(self).tokens.pos,
            r is Ok ==> left_associative(r->Ok_0) && ternary_right_nested(r->Ok_0)
                && top_at_equality_level(r->Ok_0),
            r is Err ==> r->Err_0.kind is ParserError,
            r is Ok ==> spec_parse_and(old(self).tokens.tokens@, old(self).tokens.pos as int) == Some(
                (r->Ok_0, final(self).tokens.pos as int),
            ),
            r is Err ==> spec_parse_and(old(self).tokens.tokens@, old(self).tokens.pos as int) is None,
        decreases old(self).remaining(), 9int,
    {
        let ghost toks = self.tokens.tokens@;
        let ghost pos0 = self.tokens.pos as int;
        let mut expression = match self.equality() {
            Ok(e) => e,
            Err(e) => {
                return Err(e);
            },
        };
        proof {
            assert(step_pos(toks, pos0, self.tokens.pos as int) == self.tokens.pos as int);
        }
        while self.tokens.at_kind(TokenType::And)
            invariant
                self.wf(),
                self.tokens.tokens == old(self).tokens.tokens,
                toks == self.tokens.tokens@,
                pos0 == old(self).tokens.pos as int,
                left_associative(expression) && ternary_right_nested(expression)
                    && top_at_equality_level(expression),
                self.tokens.pos > old(self).tokens.pos,
                spec_parse_and(toks, pos0) == spec_parse_and_tail(toks, self.tokens.pos as int, expression),
            decreases self.remaining(),
        {
            let ghost p = self.tokens.pos as int;
            let operator = self.tokens.next().unwrap();
            let right = match self.equality() {
                Ok(e) => e,
                Err(e) => {
                    return Err(e);
                },
            };
            proof {
                assert(step_pos(toks, p + 1, self.tokens.pos as int) == self.tokens.pos as int);
            }
            expression = Expr::Logical(
                Logical::new(Box::new(expression), operator, Box::new(right)),
            );
        }
        Ok(expression)
    }

    /// `equality → comparison (("!="|"==") comparison)*` — left-leaning.
    #[verifier::rlimit(100)]
    fn equality(&mut self) -> (r: Result<Expr, Error>)
        requires
            old(self).wf(),
        ensures
            final(self).wf(),
            final(self).tokens.tokens == old(self).tokens.tokens,
            final(self).tokens.pos >= old(self).tokens.pos,
            r is Ok ==> final(self).tokens.pos > old(self).tokens.pos,
            r is Ok ==> left_associative(r->Ok_0) && ternary_right_nested(r->Ok_0)
                && top_at_equality_level(r->Ok_0),
            r is Err ==> r->Err_0.kind is ParserError,
            r is Ok ==> spec_parse_equality(old(self).tokens.tokens@, old(self).tokens.pos as int) == Some(
                (r->Ok_0, final(self).tokens.pos as int),
            ),
            r is Err ==> spec_parse_equality(old(self).tokens.tokens@, old(self).tokens.pos as int) is None,
        decreases old(self).remaining(), 8int,
    {
        let ghost toks = self.tokens.tokens@;
        let ghost pos0 = self.tokens.pos as int;
        let mut expression = match self.comparison() {
            Ok(e) => e,
            Err(e) => {
                return Err(e);
            },
        };
        proof {
            assert(step_pos(toks, pos0, self.tokens.pos as int) == self.tokens.pos as int);
        }
        while (self.tokens.at_kind(TokenType::BangEqual) || self.tokens.at_kind(TokenType::EqualEqual))
            invariant
                self.wf(),
                self.tokens.tokens == old(self).tokens.tokens,
                toks == self.tokens.tokens@,
                pos0 == old(self).tokens.pos as int,
                left_associative(expression) && ternary_right_nested(expression)
                    && top_at_equality_level(expression),
                self.tokens.pos > old(self).tokens.pos,
                spec_parse_equality(toks, pos0) == spec_parse_equality_tail(toks, self.tokens.pos as int, expression),
            decreases self.remaining(),
        {
            let ghost p = self.tokens.pos as int;
            let operator = self.tokens.next().unwrap();
            let right = match self.comparison() {
                Ok(e) => e,
                Err(e) => {
                    return Err(e);
                },
            };
            proof {
                assert(step_pos(toks, p + 1, self.tokens.pos as int) == self.tokens.pos as int);
            }
            expression = Expr::Binary(Binary::new(Box::new(expression), operator, Box::new(right)));
        }
        Ok(expression)
    }

    /// `comparison → term ((">"|">="|"<"|"<=") term)*` — left-leaning.
    fn comparison(&mut self) -> (r: Result<Expr, Error>)
        requires
            old(self).wf(),
        ensures
            final(self).wf(),
            final(self).tokens.tokens == old(self).tokens.tokens,
            final(self).tokens.pos >= old(self).tokens.pos,
            r is Ok ==> final(self).tokens.pos > old(self).tokens.pos,
            r is Ok ==> left_associative(r->Ok_0) && ternary_right_nested(r->Ok_0)
                && top_at_comparison_level(r->Ok_0),
            r is Err ==> r->Err_0.kind is ParserError,
            r is Ok ==> spec_parse_comparison(old(self).tokens.tokens@, old(self).tokens.pos as int)
                == Some((r->Ok_0, final(self).tokens.pos as int)),
            r is Err ==> spec_parse_comparison(
                old(self).tokens.tokens@,
                old(self).tokens.pos as int,
            ) is None,
        decreases old(self).remaining(), 7int,
    {
        let ghost toks = self.tokens.tokens@;
        let ghost pos0 = self.tokens.pos as int;
        let mut expression = match self.term() {
            Ok(e) => e,
            Err(e) => {
                return Err(e);
            },
        };
        proof {
            assert(step_pos(toks, pos0, self.tokens.pos as int) == self.tokens.pos as int);
        }
        while (self.tokens.at_kind(TokenType::Greater) || self.tokens.at_kind(
            TokenType::GreaterEqual,
        ) || self.tokens.at_kind(TokenType::Less) || self.tokens.at_kind(TokenType::LessEqual))
            invariant
                self.wf(),
                self.tokens.tokens == old(self).tokens.tokens,
                toks == self.tokens.tokens@,
                pos0 == old(self).tokens.pos as int,
                left_associative(expression) && ternary_right_nested(expression)
                    && top_at_comparison_level(expression),
                self.tokens.pos > old(self).tokens.pos,
                spec_parse_comparison(toks, pos0) == spec_parse_comparison_tail(
                    toks,
                    self.tokens.pos as int,
                    expression,
                ),
            decreases self.remaining(),
        {
            let ghost p = self.tokens.pos as int;
            let operator = self.tokens.next().unwrap();
            let right = match self.term() {
                Ok(e) => e,
                Err(e) => {
                    return Err(e);
                },
            };
            proof {
                assert(step_pos(toks, p + 1, self.tokens.pos as int) == self.tokens.pos as int);
            }
            expression = Expr::Binary(Binary::new(Box::new(expression), operator, Box::new(right)));
        }
        Ok(expression)
    }

    /// `term → factor (("-"|"+") factor)*` — left-leaning.
    fn term(&mut self) -> (r: Result<Expr, Error>)
        requires
            old(self).wf(),
        ensures
            final(self).wf(),
            final(self).tokens.tokens == old(self).tokens.tokens,
            final(self).tokens.pos >= old(self).tokens.pos,
            r is Ok ==> final(self).tokens.pos > old(self).tokens.pos,
            r is Ok ==> left_associative(r->Ok_0) && ternary_right_nested(r->Ok_0)
                && top_at_term_level(r->Ok_0),
            r is Err ==> r->Err_0.kind is ParserError,
            r is Ok ==> spec_parse_term(old(self).tokens.tokens@, old(self).tokens.pos as int) == Some(
                (r->Ok_0, final(self).tokens.pos as int),
            ),
            r is Err ==> spec_parse_term(old(self).tokens.tokens@, old(self).tokens.pos as int) is None,
        decreases old(self).remaining(), 6int,
    {
        let ghost toks = self.tokens.tokens@;
        let ghost pos0 = self.tokens.pos as int;
        let mut expression = match self.factor() {
            Ok(e) => e,
            Err(e) => {
                return Err(e);
            },
        };
        proof {
            assert(step_pos(toks, pos0, self.tokens.pos as int) == self.tokens.pos as int);
        }
        while (self.tokens.at_kind(TokenType::Minus) || self.tokens.at_kind(TokenType::Plus))
            invariant
                self.wf(),
                self.tokens.tokens == old(self).tokens.tokens,
                toks == self.tokens.tokens@,
                pos0 == old(self).tokens.pos as int,
                left_associative(expression) && ternary_right_nested(expression)
                    && top_at_term_level(expression),
                self.tokens.pos > old(self).tokens.pos,
                spec_parse_term(toks, pos0) == spec_parse_term_tail(toks, self.tokens.pos as int, expression),
            decreases self.remaining(),
        {
            let ghost p = self.tokens.pos as int;
            let operator = self.tokens.next().unwrap();
            let right = match self.factor() {
                Ok(e) => e,
                Err(e) => {
                    return Err(e);
                },
            };
            proof {
                assert(step_pos(toks, p + 1, self.tokens.pos as int) == self.tokens.pos as int);
            }
            expression = Expr::Binary(Binary::new(Box::new(expression), operator, Box::new(right)));
        }
        Ok(expression)
    }

    /// `factor → ternary (("/"|"*") ternary)*` — left-leaning.
    fn factor(&mut self) -> (r: Result<Expr, Error>)
        requires
            old(self).wf(),
        ensures
            final(self).wf(),
            final(self).tokens.tokens == old(self).tokens.tokens,
            final(self).tokens.pos >= old(self).tokens.pos,
            r is Ok ==> final(self).tokens.pos > old(self).tokens.pos,
            r is Ok ==> left_associative(r->Ok_0) && ternary_right_nested(r->Ok_0)
                && top_at_factor_level(r->Ok_0),
            r is Err ==> r->Err_0.kind is ParserError,
            r is Ok ==> spec_parse_factor(old(self).tokens.tokens@, old(self).tokens.pos as int) == Some(
                (r->Ok_0, final(self).tokens.pos as int),
            ),
            r is Err ==> spec_parse_factor(old(self).tokens.tokens@, old(self).tokens.pos as int) is None,
        decreases old(self).remaining(), 5int,
    {
        let ghost toks = self.tokens.tokens@;
        let ghost pos0 = self.tokens.pos as int;
        let mut expression = match self.ternary() {
            Ok(e) => e,
            Err(e) => {
                return Err(e);
            },
        };
        proof {
            assert(step_pos(toks, pos0, self.tokens.pos as int) == self.tokens.pos as int);
        }
        while (self.tokens.at_kind(TokenType::Slash) || self.tokens.at_kind(TokenType::Star))
            invariant
                self.wf(),
                self.tokens.tokens == old(self).tokens.tokens,
                toks == self.tokens.tokens@,
                pos0 == old(self).tokens.pos as int,
                left_associative(expression) && ternary_right_nested(expression)
                    && top_at_factor_level(expression),
                self.tokens.pos > old(self).tokens.pos,
                spec_parse_factor(toks, pos0) == spec_parse_factor_tail(toks, self.tokens.pos as int, expression),
            decreases self.remaining(),
        {
            let ghost p = self.tokens.pos as int;
            let operator = self.tokens.next().unwrap();
            let right = match self.ternary() {
                Ok(e) => e,
                Err(e) => {
                    return Err(e);
                },
            };
            proof {
                assert(step_pos(toks, p + 1, self.tokens.pos as int) == self.tokens.pos as int);
            }
            expression = Expr::Binary(Binary::new(Box::new(expression), operator, Box::new(right)));
        }
        Ok(expression)
    }

    /// `ternary → unary ("?" expression ":" expression)?` — both branches
    /// recurse into the full expression rule, so the ternary associates to
    /// the right through its else branch.
    #[verifier::rlimit(100)]
    fn ternary(&mut self) -> (r: Result<Expr, Error>)
        requires
            old(self).wf(),
        ensures
            final(self).wf(),
            final(self).tokens.tokens == old(self).tokens.tokens,
            final(self).tokens.pos >= old(self).tokens.pos,
            r is Ok ==> final(self).tokens.pos > old(self).tokens.pos,
            r is Ok ==> left_associative(r->Ok_0) && ternary_right_nested(r->Ok_0)
                && top_not_binary(r->Ok_0),
            r is Err ==> r->Err_0.kind is ParserError,
            r is Ok ==> spec_parse_ternary(old(self).tokens.tokens@, old(self).tokens.pos as int)
                == Some((r->Ok_0, final(self).tokens.pos as int)),
            r is Err ==> spec_parse_ternary(old(self).tokens.tokens@, old(self).tokens.pos as int)
                is None,
        decreases old(self).remaining(), 4int,
    {
        let ghost toks = self.tokens.tokens@;
        let ghost pos0 = self.tokens.pos as int;
        let mut expression = match self.unary() {
            Ok(e) => e,
            Err(e) => {
                proof {
                    assert(spec_parse_ternary(toks, pos0) is None);
                }
                return Err(e);
            },
        };
        let ghost p1 = self.tokens.pos as int;
        proof {
            assert(step_pos(toks, pos0, p1) == p1);
            assert(spec_parse_unary(toks, pos0) == Some((expression, p1)));
        }
        if self.tokens.at_kind(TokenType::Query) {
            let operator = self.tokens.next().unwrap();
            let second = match self.expression() {
                Ok(e) => e,
                Err(e) => {
                    proof {
                        assert(spec_parse_expression(toks, p1 + 1) is None);
                        assert(spec_parse_ternary(toks, pos0) is None);
                    }
                    return Err(e);
                },
            };
            let ghost p2 = self.tokens.pos as int;
            proof {
                assert(step_pos(toks, p1 + 1, p2) == p2);
                assert(spec_parse_expression(toks, p1 + 1) == Some((second, p2)));
            }
            match self.tokens.consume_kind(TokenType::Colon, "Expect \":\" after first expression") {
                Ok(_) => {},
                Err(e) => {
                    proof {
                        assert(!peek_is(toks, p2, TokenType::Colon));
                        assert(spec_parse_ternary(toks, pos0) is None);
                    }
                    return Err(e);
                },
            }
            let third = match self.expression() {
                Ok(e) => e,
                Err(e) => {
                    proof {
                        assert(spec_parse_expression(toks, p2 + 1) is None);
                        assert(spec_parse_ternary(toks, pos0) is None);
                    }
                    return Err(e);
                },
            };
            let ghost p3 = self.tokens.pos as int;
            proof {
                assert(step_pos(toks, p2 + 1, p3) == p3);
            }
            expression = Expr::Ternary(
                Ternary::new(operator, Box::new(expression), Box::new(second), Box::new(third)),
            );
            proof {
                assert(spec_parse_ternary(toks, pos0) == Some((expression, p3)));
            }
        } else {
            proof {
                assert(spec_parse_ternary(toks, pos0) == Some((expression, p1)));
            }
        }
        Ok(expression)
    }

    /// `unary → ("!"|"-") unary | primary`
    fn unary(&mut self) -> (r: Result<Expr, Error>)
        requires
            old(self).wf(),
        ensures
            final(self).wf(),
            final(self).tokens.tokens == old(self).tokens.tokens,
            final(self).tokens.pos >= old(self).tokens.pos,
            r is Ok ==> final(self).tokens.pos > old(self).tokens.pos,
            r is Ok ==> left_associative(r->Ok_0) && ternary_right_nested(r->Ok_0)
                && top_not_binary(r->Ok_0) && top_not_ternary(r->Ok_0),
            r is Err ==> r->Err_0.kind is ParserError,
            r is Ok ==> spec_parse_unary(old(self).tokens.tokens@, old(self).tokens.pos as int)
                == Some((r->Ok_0, final(self).tokens.pos as int)),
            r is Err ==> spec_parse_unary(old(self).tokens.tokens@, old(self).tokens.pos as int)
                is None,
        decreases old(self).remaining(), 3int,
    {
        let ghost toks = self.tokens.tokens@;
        let ghost pos0 = self.tokens.pos as int;
        if self.tokens.at_kind(TokenType::Bang) || self.tokens.at_kind(TokenType::Minus) {
            let operator = self.tokens.next().unwrap();
            let right = match self.unary() {
                Ok(e) => e,
                Err(e) => {
                    return Err(e);
                },
            };
            proof {
                assert(step_pos(toks, pos0 + 1, self.tokens.pos as int)
                    == self.tokens.pos as int);
            }
            Ok(Expr::Unary(Unary::new(operator, Box::new(right))))
        } else {
            self.primary()
        }
    }

    /// `primary → NUMBER | STRING | "true" | "false" | "null" | IDENT |
    /// "(" expression ")"`
    fn primary(&mut self) -> (r: Result<Expr, Error>)
        requires
            old(self).wf(),
        ensures
            final(self).wf(),
            final(self).tokens.tokens == old(self).tokens.tokens,
            final(self).tokens.pos >= old(self).tokens.pos,
            r is Ok ==> final(self).tokens.pos > old(self).tokens.pos,
            r is Ok ==> left_associative(r->Ok_0) && ternary_right_nested(r->Ok_0)
                && top_not_binary(r->Ok_0) && top_not_ternary(r->Ok_0),
            r is Err ==> r->Err_0.kind is ParserError,
            r is Ok ==> spec_parse_primary(old(self).tokens.tokens@, old(self).tokens.pos as int)
                == Some((r->Ok_0, final(self).tokens.pos as int)),
            r is Err ==> spec_parse_primary(old(self).tokens.tokens@, old(self).tokens.pos as int)
                is None,
            old(self).tokens.pos == old(self).tokens.tokens@.len() ==> (r is Err && (
            r->Err_0.kind matches ErrorKind::ParserError { token, message } && token is None
                && message@ == "Expect token"@)),
        decreases old(self).remaining(), 2int,
    {
        let ghost toks = self.tokens.tokens@;
        let ghost pos0 = self.tokens.pos as int;
        let token = match self.tokens.next() {
            Some(t) => t,
            None => {
                return Err(
                    Error::new(
                        ErrorKind::ParserError {
                            token: None,
                            message: String::from_str("Expect token"),
                        },
                    ),
                );
            },
        };
        match token.token_type {
            TokenType::False => Ok(Expr::Literal(Literal::new(Value::False))),
            TokenType::True => Ok(Expr::Literal(Literal::new(Value::True))),
            TokenType::Null => Ok(Expr::Literal(Literal::new(Value::Null))),
            TokenType::Number => {
                match parse_value(token) {
                    Ok(v) => Ok(Expr::Literal(Literal::new(v))),
                    Err(e) => Err(e),
                }
            },
            TokenType::String => {
                match parse_value(token) {
                    Ok(v) => Ok(Expr::Literal(Literal::new(v))),
                    Err(e) => Err(e),
                }
            },
            TokenType::Identifier => {
                match &token.lexeme {
                    Some(s) => Ok(Expr::Variable(Variable::new(s.clone()))),
                    None => Err(
                        Error::new(
                            ErrorKind::ParserError {
                                token: Some(token),
                                message: String::from_str("Identifier without a name"),
                            },
                        ),
                    ),
                }
            },
            TokenType::LeftParen => {
                let expression = match self.expression() {
                    Ok(e) => e,
                    Err(e) => {
                        return Err(e);
                    },
                };
                proof {
                    assert(step_pos(toks, pos0 + 1, self.tokens.pos as int)
                        == self.tokens.pos as int);
                }
                match self.tokens.consume_kind(TokenType::RightParen, "Expect \")\" after expression") {
                    Ok(_) => {},
                    Err(e) => {
                        return Err(e);
                    },
                }
                Ok(Expr::Grouping(Grouping::new(Box::new(expression))))
            },
            _ => {
                let text = token.text();
                let mut message = String::from_str("Unexpected token \"");
                message.append(text.as_str());
                message.append("\"");
                Err(Error::new(ErrorKind::ParserError { token: Some(token), message }))
            },
        }
    }
}

} // verus!
