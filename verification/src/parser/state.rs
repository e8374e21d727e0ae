//! The parser's state and its steps over single tokens.

use vstd::prelude::*;

use crate::ast::{
    Block, BinOp, Expr, ExprId, ExprKind, GenericParamId, PatternId, TraitRef, TraitRefId, TypeId,
    UnOp,
};
use crate::diag::{DiagnosticCode, StructuredDiagnostic, TextRange};
use crate::documentation::{
    has_blank_line, leading_documentation, leading_trivia_has_blank_line,
    render_leading_documentation,
};
use crate::lexer::RuaLexer;
use crate::parser::grammar::{
    accept, assign_op, bin_op, bump, err, expect, failure_at, first_unquoted, generic_id,
    has_lowercase, ident, is_binding_name, is_block_like, last_unquoted, lex_failure, literal_kind,
    make, nest_error, pattern_id, trait_ref, type_id, unary_op, unquoted, At, Failure, Input, Out,
};
use crate::text::{cat3, cat5, chars_of, decimal_text, text_between};
use crate::token::{RuaTokenKind as T, SourceRange};
use crate::tokenize::{LexErrorKind, TokenizeError};

verus! {

/// Why a parse ended, with its place and its message.
#[derive(Debug)]
pub struct ParseError {
    pub diagnostic: StructuredDiagnostic,
    pub line: usize,
    pub message: String,
}

impl ParseError {
    /// The error over mathematical texts.
    pub open spec fn failure(self) -> Failure {
        Failure {
            diagnostic: self.diagnostic.record(),
            line: self.line,
            message: self.message@,
        }
    }

    /// An error at a range.
    pub fn at_code(range: SourceRange, code: DiagnosticCode, message: String) -> (r: Self)
        ensures
            r.failure() == failure_at(range, code, message@),
    {
        let place = TextRange { start: range.start as u32, len: range.len as u32 };
        let diagnostic = StructuredDiagnostic::new(code, Some(range.file), Some(place)).with_argument(
            "message",
            message.as_str(),
        );
        let r = ParseError { diagnostic, line: range.line, message };
        proof {
            assert(r.failure().diagnostic.arguments =~= seq![("message"@, message@)]);
        }
        r
    }

    /// The error that a place without a token causes.
    pub fn from_tokenize(error: TokenizeError) -> (r: Self)
        ensures
            r.failure() == lex_failure(error),
    {
        let code = match error.kind {
            LexErrorKind::UnterminatedString => DiagnosticCode::ParseUnterminatedString,
            LexErrorKind::UnterminatedBlockComment => DiagnosticCode::ParseUnterminatedComment,
            LexErrorKind::UnknownCharacter => DiagnosticCode::ParseUnexpectedToken,
        };
        ParseError::at_code(error.range, code, error.message)
    }

    /// The machine-readable cause.
    pub fn diagnostic(&self) -> (r: &StructuredDiagnostic)
        ensures
            *r == self.diagnostic,
    {
        &self.diagnostic
    }

    /// The message.
    pub fn message(&self) -> (r: &str)
        ensures
            r@ == self.message@,
    {
        self.message.as_str()
    }

    /// The line, counted from one; zero where there is none.
    pub fn line(&self) -> (r: usize)
        ensures
            r == self.line,
    {
        self.line
    }

    /// The line and the message as one text.
    pub fn render(&self) -> (r: String)
        ensures
            r@ == (if self.line == 0 {
                self.message@
            } else {
                crate::text::decimal(self.line as nat) + ": "@ + self.message@
            }),
    {
        if self.line == 0 {
            self.message.clone()
        } else {
            cat3(decimal_text(self.line as u64).as_str(), ": ", self.message.as_str())
        }
    }
}

/// What a parser may use up.
#[derive(Clone, Copy, Debug, PartialEq, Eq, Structural)]
pub struct ParseBudget {
    pub max_tokens: usize,
    pub max_nesting: usize,
}

/// What a parser may use up where nobody says otherwise.
pub open spec fn default_budget() -> ParseBudget {
    ParseBudget { max_tokens: 1_000_000, max_nesting: 512 }
}

impl Default for ParseBudget {
    fn default() -> (r: Self)
        ensures
            r == default_budget(),
    {
        ParseBudget { max_tokens: 1_000_000, max_nesting: 512 }
    }
}

/// A parser: a place in a token stream.
pub struct Parser<'a> {
    pub lexer: RuaLexer<'a>,
    pub semantic_file: u32,
    pub max_nesting: usize,
    pub nesting: usize,
    /// Whether a `{` behind a name starts a block, as in conditions.
    pub no_struct: bool,
    pub next_expr: u32,
    pub next_pattern: u32,
    pub next_type: u32,
    pub next_trait_ref: u32,
    pub next_generic: u32,
}

/// What a step leaves alone, and that it does not go back.
pub open spec fn kept(before: Parser, after: Parser, further: bool) -> bool {
    &&& after.wf()
    &&& after.input() == before.input()
    &&& after.nesting == before.nesting
    &&& after.no_struct == before.no_struct
    &&& after.at().cur >= before.at().cur
    &&& further ==> after.at().cur > before.at().cur
}

/// `char::is_lowercase` tells whether Unicode gives a character the lowercase
/// property; the property itself is left to the standard library.
#[verifier::external_body]
fn is_lowercase(c: char) -> (r: bool)
    ensures
        r == has_lowercase(c),
{
    c.is_lowercase()
}

/// Whether a single name in a pattern binds.
pub fn starts_lowercase(name: &str) -> (r: bool)
    ensures
        r == is_binding_name(name@),
{
    let chars = chars_of(name);
    chars.len() > 0 && (is_lowercase(chars[0]) || chars[0] == '_')
}

/// Whether an expression ends a statement without a semicolon.
pub fn ends_statement(expression: &Expr) -> (r: bool)
    ensures
        r == is_block_like(expression.tree()),
{
    match &expression.kind {
        ExprKind::If { .. } | ExprKind::IfLet { .. } | ExprKind::Block(_) | ExprKind::Loop(_)
        | ExprKind::Match { .. } => true,
        _ => false,
    }
}

/// The operation of an assignment token; `=` has none.
pub fn assignop(kind: T) -> (r: Option<Option<BinOp>>)
    ensures
        r == assign_op(kind),
{
    match kind {
        T::Eq => Some(None),
        T::PlusEq => Some(Some(BinOp::Add)),
        T::MinusEq => Some(Some(BinOp::Sub)),
        T::StarEq => Some(Some(BinOp::Mul)),
        T::SlashEq => Some(Some(BinOp::Div)),
        T::PercentEq => Some(Some(BinOp::Rem)),
        _ => None,
    }
}

/// The operator of a token and how tight it binds.
pub fn binop(kind: T) -> (r: Option<(BinOp, u8)>)
    ensures
        match r {
            Some((op, tight)) => tight <= 6 && bin_op(kind) == Some((op, tight as nat)),
            None => bin_op(kind) is None,
        },
{
    match kind {
        T::QuestionQuestion => Some((BinOp::Coalesce, 0)),
        T::OrOr => Some((BinOp::Or, 1)),
        T::AndAnd => Some((BinOp::And, 2)),
        T::EqEq => Some((BinOp::Eq, 3)),
        T::Ne => Some((BinOp::Ne, 3)),
        T::Lt => Some((BinOp::Lt, 3)),
        T::Le => Some((BinOp::Le, 3)),
        T::Gt => Some((BinOp::Gt, 3)),
        T::Ge => Some((BinOp::Ge, 3)),
        T::KwIn => Some((BinOp::Contains, 3)),
        T::Plus => Some((BinOp::Add, 5)),
        T::Minus => Some((BinOp::Sub, 5)),
        T::Star => Some((BinOp::Mul, 6)),
        T::Slash => Some((BinOp::Div, 6)),
        T::Percent => Some((BinOp::Rem, 6)),
        _ => None,
    }
}

/// The operator of a prefix token.
pub fn unop(kind: T) -> (r: Option<UnOp>)
    ensures
        r == unary_op(kind),
{
    match kind {
        T::Minus => Some(UnOp::Neg),
        T::Not => Some(UnOp::Not),
        _ => None,
    }
}

/// The expression of a literal token.
pub fn literal_of(kind: T, text: String) -> (r: ExprKind)
    ensures
        r.tree() == literal_kind(kind, text@),
{
    match kind {
        T::Int => ExprKind::Int(text),
        T::Float => ExprKind::Float(text),
        T::Str => ExprKind::Str(text),
        T::KwTrue => ExprKind::Bool(true),
        _ => ExprKind::Bool(false),
    }
}

/// A text without quotes at both ends.
pub fn unquote(s: &str) -> (r: String)
    ensures
        r@ == unquoted(s@),
{
    let chars = chars_of(s);
    let mut from: usize = 0;
    while from < chars.len() && chars[from] == '"'
        invariant
            from <= chars.len(),
            chars@ == s@,
            first_unquoted(s@, from as int) == first_unquoted(s@, 0),
        decreases chars.len() - from,
    {
        from += 1;
    }
    let mut to: usize = chars.len();
    while to > from && chars[to - 1] == '"'
        invariant
            from <= to <= chars.len(),
            chars@ == s@,
            last_unquoted(s@, from as int, to as int) == last_unquoted(
                s@,
                from as int,
                s@.len() as int,
            ),
        decreases to,
    {
        to -= 1;
    }
    text_between(&chars, from, to)
}

impl<'a> Parser<'a> {
    /// What the parser reads.
    pub open spec fn input(self) -> Input {
        Input {
            stream: self.lexer.spec_stream(),
            file: self.semantic_file,
            max_nesting: self.max_nesting as nat,
        }
    }

    /// The place of the parser.
    pub open spec fn at(self) -> At {
        At {
            cur: self.lexer@.current,
            prev: self.lexer@.previous,
            next_expr: self.next_expr,
            next_pattern: self.next_pattern,
            next_type: self.next_type,
            next_trait_ref: self.next_trait_ref,
            next_generic: self.next_generic,
        }
    }

    /// The cursor stands in a stream that ends.
    pub open spec fn wf(self) -> bool {
        &&& self.lexer.wf()
        &&& 0 <= self.lexer@.current <= self.lexer.spec_stream().tokens@.len()
        &&& self.lexer.spec_stream().end.kind == T::Eof
    }

    /// The kind of the current token.
    pub fn cur(&self) -> (r: T)
        requires
            self.wf(),
        ensures
            r == self.input().kind(self.at().cur),
    {
        self.lexer.current()
    }

    /// The range of the current token.
    pub fn range(&self) -> (r: SourceRange)
        ensures
            r == self.input().range(self.at().cur),
    {
        self.lexer.current_range()
    }

    /// The text of the current token.
    pub fn text(&self) -> (r: String)
        ensures
            r@ == self.input().text(self.at().cur),
    {
        self.lexer.current_text().to_string()
    }

    /// Steps over the current token.
    pub fn bump(&mut self) -> (r: Result<(), ParseError>)
        requires
            old(self).wf(),
            old(self).input().kind(old(self).at().cur) != T::Eof,
        ensures
            match r {
                Ok(_) => kept(*old(self), *final(self), true) && bump(
                    old(self).input(),
                    old(self).at(),
                ) == Out::Done(final(self).at(), ()),
                Err(e) => bump(old(self).input(), old(self).at()) == Out::<()>::Fail(e.failure()),
            },
    {
        proof {
            reveal(bump);
        }
        proof {
            self.lexer.lemma_next();
        }
        match self.lexer.bump() {
            Ok(_) => Ok(()),
            Err(error) => Err(ParseError::from_tokenize(error)),
        }
    }

    /// Steps over a token of a kind where there is one.
    pub fn accept(&mut self, kind: T) -> (r: Result<bool, ParseError>)
        requires
            old(self).wf(),
            kind != T::Eof,
        ensures
            match r {
                Ok(v) => kept(*old(self), *final(self), v) && accept(
                    old(self).input(),
                    old(self).at(),
                    kind,
                ) == Out::Done(final(self).at(), v),
                Err(e) => accept(old(self).input(), old(self).at(), kind) == Out::<bool>::Fail(
                    e.failure(),
                ),
            },
    {
        proof {
            reveal(accept);
        }
        if self.cur() == kind {
            match self.bump() {
                Ok(_) => Ok(true),
                Err(error) => Err(error),
            }
        } else {
            Ok(false)
        }
    }

    /// Steps over a token of a kind.
    pub fn expect(&mut self, kind: T) -> (r: Result<(), ParseError>)
        requires
            old(self).wf(),
            kind != T::Eof,
        ensures
            match r {
                Ok(v) => kept(*old(self), *final(self), true) && expect(
                    old(self).input(),
                    old(self).at(),
                    kind,
                ) == Out::Done(final(self).at(), v),
                Err(e) => expect(old(self).input(), old(self).at(), kind) == Out::<()>::Fail(
                    e.failure(),
                ),
            },
    {
        proof {
            reveal(expect);
        }
        if self.cur() == kind {
            self.bump()
        } else {
            Err(
                self.err(
                    cat5(
                        "expected `",
                        kind.user_string(),
                        "`, found `",
                        self.cur().user_string(),
                        "`",
                    ),
                ),
            )
        }
    }

    /// An identifier.
    pub fn expect_ident(&mut self) -> (r: Result<String, ParseError>)
        requires
            old(self).wf(),
        ensures
            match r {
                Ok(v) => kept(*old(self), *final(self), true) && ident(
                    old(self).input(),
                    old(self).at(),
                ) == Out::Done(final(self).at(), v@),
                Err(e) => ident(old(self).input(), old(self).at()) == Out::<Seq<char>>::Fail(
                    e.failure(),
                ),
            },
    {
        proof {
            reveal(ident);
        }
        if self.cur() == T::Ident || self.cur() == T::KwSelf {
            let name = self.text();
            match self.bump() {
                Ok(_) => Ok(name),
                Err(error) => Err(error),
            }
        } else {
            Err(self.err(cat3("expected identifier, found `", self.cur().user_string(), "`")))
        }
    }

    /// An error at the current token.
    pub fn err(&self, message: String) -> (r: ParseError)
        ensures
            r.failure() == err(self.input(), self.at(), message@),
    {
        let range = SourceRange { file: self.semantic_file, ..self.range() };
        ParseError::at_code(range, DiagnosticCode::ParseUnexpectedToken, message)
    }

    /// The error of a text that is nested too deep.
    pub fn nesting_error(&self) -> (r: ParseError)
        ensures
            r.failure() == nest_error(self.input(), self.at()),
    {
        let range = SourceRange { file: self.semantic_file, ..self.range() };
        ParseError::at_code(
            range,
            DiagnosticCode::ParseResourceLimit,
            cat3(
                "parser nesting budget exceeded (limit ",
                decimal_text(self.max_nesting as u64).as_str(),
                ")",
            ),
        )
    }

    /// The documentation before the current token.
    pub fn leading_documentation(&self) -> (r: Option<String>)
        ensures
            crate::tree::optional_text(r) == leading_documentation(
                self.input().trivia(self.at().cur),
                false,
            ),
    {
        render_leading_documentation(self.lexer.current_leading_trivia(), false)
    }

    /// Whether an empty line stands before the current token.
    pub fn blank_line_before_current(&self) -> (r: bool)
        ensures
            r == has_blank_line(self.input().trivia(self.at().cur), 0),
    {
        leading_trivia_has_blank_line(self.lexer.current_leading_trivia())
    }

    /// An expression from a start up to the last token.
    pub fn mk(&mut self, kind: ExprKind, start: SourceRange) -> (r: Result<Expr, ParseError>)
        requires
            old(self).wf(),
        ensures
            match r {
                Ok(v) => kept(*old(self), *final(self), false) && final(self).at().cur == old(
                    self,
                ).at().cur && make(old(self).input(), old(self).at(), kind.tree(), start)
                    == Out::Done(final(self).at(), v.tree()),
                Err(e) => make(old(self).input(), old(self).at(), kind.tree(), start) == Out::<
                    crate::tree::ExprTree,
                >::Fail(e.failure()),
            },
    {
        proof {
            reveal(make);
        }
        if self.next_expr == u32::MAX {
            return Err(self.err("expression ID overflow".to_string()));
        }
        let last = self.lexer.previous_range();
        let end: usize = if last.len > usize::MAX - last.start {
            usize::MAX
        } else {
            last.start + last.len
        };
        let len: usize = if end > start.start {
            end - start.start
        } else {
            0
        };
        let id = ExprId { file: self.semantic_file, local: self.next_expr };
        self.next_expr = self.next_expr + 1;
        Ok(Expr::new(id, kind, SourceRange::new(start.start, len, start.line)))
    }

    /// The next pattern identity.
    pub fn next_pattern_id(&mut self) -> (r: Result<PatternId, ParseError>)
        requires
            old(self).wf(),
        ensures
            match r {
                Ok(v) => kept(*old(self), *final(self), false) && final(self).at().cur == old(
                    self,
                ).at().cur && pattern_id(old(self).input(), old(self).at()) == Out::Done(
                    final(self).at(),
                    v,
                ),
                Err(e) => pattern_id(old(self).input(), old(self).at()) == Out::<PatternId>::Fail(e.failure()),
            },
    {
        proof {
            reveal(pattern_id);
        }
        if self.next_pattern == u32::MAX {
            return Err(self.err("pattern ID overflow".to_string()));
        }
        let id = PatternId { file: self.semantic_file, local: self.next_pattern };
        self.next_pattern = self.next_pattern + 1;
        Ok(id)
    }

    /// The next type identity.
    pub fn next_type_id(&mut self) -> (r: Result<TypeId, ParseError>)
        requires
            old(self).wf(),
        ensures
            match r {
                Ok(v) => kept(*old(self), *final(self), false) && final(self).at().cur == old(
                    self,
                ).at().cur && type_id(old(self).input(), old(self).at()) == Out::Done(
                    final(self).at(),
                    v,
                ),
                Err(e) => type_id(old(self).input(), old(self).at()) == Out::<TypeId>::Fail(e.failure()),
            },
    {
        proof {
            reveal(type_id);
        }
        if self.next_type == u32::MAX {
            return Err(self.err("type ID overflow".to_string()));
        }
        let id = TypeId { file: self.semantic_file, local: self.next_type };
        self.next_type = self.next_type + 1;
        Ok(id)
    }

    /// The next parameter identity.
    pub fn next_generic_id(&mut self) -> (r: Result<GenericParamId, ParseError>)
        requires
            old(self).wf(),
        ensures
            match r {
                Ok(v) => kept(*old(self), *final(self), false) && final(self).at().cur == old(
                    self,
                ).at().cur && generic_id(old(self).input(), old(self).at()) == Out::Done(
                    final(self).at(),
                    v,
                ),
                Err(e) => generic_id(old(self).input(), old(self).at()) == Out::<GenericParamId>::Fail(e.failure()),
            },
    {
        proof {
            reveal(generic_id);
        }
        if self.next_generic == u32::MAX {
            return Err(self.err("generic parameter ID overflow".to_string()));
        }
        let id = GenericParamId { file: self.semantic_file, local: self.next_generic };
        self.next_generic = self.next_generic + 1;
        Ok(id)
    }

    /// A bound with the next identity.
    pub fn trait_ref(&mut self, path: String) -> (r: Result<TraitRef, ParseError>)
        requires
            old(self).wf(),
        ensures
            match r {
                Ok(v) => kept(*old(self), *final(self), false) && final(self).at().cur == old(
                    self,
                ).at().cur && trait_ref(old(self).input(), old(self).at(), path@) == Out::Done(
                    final(self).at(),
                    v.tree(),
                ),
                Err(e) => trait_ref(old(self).input(), old(self).at(), path@) == Out::<
                    crate::tree::TraitRefTree,
                >::Fail(e.failure()),
            },
    {
        proof {
            reveal(trait_ref);
        }
        if self.next_trait_ref == u32::MAX {
            return Err(self.err("trait reference ID overflow".to_string()));
        }
        let id = TraitRefId { file: self.semantic_file, local: self.next_trait_ref };
        self.next_trait_ref = self.next_trait_ref + 1;
        Ok(TraitRef { id, path })
    }
}

} // verus!
