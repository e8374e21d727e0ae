//! Source ranges and the token vocabulary.

use vstd::prelude::*;

verus! {

/// A byte range of one source file, with the line that it starts on.
#[derive(Clone, Copy, Debug, PartialEq, Eq, Structural)]
pub struct SourceRange {
    pub start: usize,
    pub len: usize,
    pub line: usize,
    pub file: u32,
}

impl SourceRange {
    /// A range of the first file.
    pub open spec fn spec_new(start: usize, len: usize, line: usize) -> SourceRange {
        SourceRange { start, len, line, file: 0 }
    }

    /// A range of the first file.
    pub fn new(start: usize, len: usize, line: usize) -> (r: SourceRange)
        ensures
            r == SourceRange::spec_new(start, len, line),
    {
        SourceRange { start, len, line, file: 0 }
    }

    /// The range before any token.
    pub open spec fn spec_empty() -> SourceRange {
        SourceRange { start: 0, len: 0, line: 0, file: 0 }
    }

    /// The range before any token.
    pub fn empty() -> (r: SourceRange)
        ensures
            r == SourceRange::spec_empty(),
    {
        SourceRange { start: 0, len: 0, line: 0, file: 0 }
    }

    /// The byte offset just behind the range.
    pub fn end(&self) -> (r: usize)
        requires
            self.start + self.len <= usize::MAX,
        ensures
            r == self.start + self.len,
    {
        self.start + self.len
    }
}

/// The kinds of tokens.
#[derive(Clone, Copy, Debug, PartialEq, Eq, Structural)]
pub enum RuaTokenKind {
    Eof,
    Whitespace,
    LineComment,
    BlockComment,
    Ident,
    Int,
    Float,
    Str,
    KwAs,
    KwBreak,
    KwContinue,
    KwDyn,
    KwElse,
    KwEnum,
    KwExtern,
    KwFalse,
    KwFn,
    KwFor,
    KwIf,
    KwImpl,
    KwIn,
    KwLet,
    KwLoop,
    KwMatch,
    KwMod,
    KwMut,
    KwPub,
    KwReturn,
    KwSelf,
    KwStruct,
    KwTrait,
    KwTrue,
    KwUse,
    KwWhile,
    LParen,
    RParen,
    LBrace,
    RBrace,
    LBracket,
    RBracket,
    Comma,
    Semi,
    Colon,
    ColonColon,
    Arrow,
    FatArrow,
    Dot,
    DotDot,
    DotDotEq,
    Hash,
    Question,
    QuestionDot,
    QuestionQuestion,
    Amp,
    AndAnd,
    Pipe,
    OrOr,
    Not,
    Eq,
    EqEq,
    Ne,
    Lt,
    Le,
    Gt,
    Ge,
    Plus,
    PlusEq,
    Minus,
    MinusEq,
    Star,
    StarEq,
    Slash,
    SlashEq,
    Percent,
    PercentEq,
}

impl RuaTokenKind {
    /// The kind as messages name it.
    pub open spec fn spec_user_string(self) -> Seq<char> {
        match self {
            RuaTokenKind::Eof => "end of file"@,
            RuaTokenKind::Whitespace => "whitespace"@,
            RuaTokenKind::LineComment => "line comment"@,
            RuaTokenKind::BlockComment => "block comment"@,
            RuaTokenKind::Ident => "identifier"@,
            RuaTokenKind::Int => "integer literal"@,
            RuaTokenKind::Float => "float literal"@,
            RuaTokenKind::Str => "string literal"@,
            RuaTokenKind::KwAs => "as"@,
            RuaTokenKind::KwBreak => "break"@,
            RuaTokenKind::KwContinue => "continue"@,
            RuaTokenKind::KwDyn => "dyn"@,
            RuaTokenKind::KwElse => "else"@,
            RuaTokenKind::KwEnum => "enum"@,
            RuaTokenKind::KwExtern => "extern"@,
            RuaTokenKind::KwFalse => "false"@,
            RuaTokenKind::KwFn => "fn"@,
            RuaTokenKind::KwFor => "for"@,
            RuaTokenKind::KwIf => "if"@,
            RuaTokenKind::KwImpl => "impl"@,
            RuaTokenKind::KwIn => "in"@,
            RuaTokenKind::KwLet => "let"@,
            RuaTokenKind::KwLoop => "loop"@,
            RuaTokenKind::KwMatch => "match"@,
            RuaTokenKind::KwMod => "mod"@,
            RuaTokenKind::KwMut => "mut"@,
            RuaTokenKind::KwPub => "pub"@,
            RuaTokenKind::KwReturn => "return"@,
            RuaTokenKind::KwSelf => "self"@,
            RuaTokenKind::KwStruct => "struct"@,
            RuaTokenKind::KwTrait => "trait"@,
            RuaTokenKind::KwTrue => "true"@,
            RuaTokenKind::KwUse => "use"@,
            RuaTokenKind::KwWhile => "while"@,
            RuaTokenKind::LParen => "("@,
            RuaTokenKind::RParen => ")"@,
            RuaTokenKind::LBrace => "{"@,
            RuaTokenKind::RBrace => "}"@,
            RuaTokenKind::LBracket => "["@,
            RuaTokenKind::RBracket => "]"@,
            RuaTokenKind::Comma => ","@,
            RuaTokenKind::Semi => ";"@,
            RuaTokenKind::Colon => ":"@,
            RuaTokenKind::ColonColon => "::"@,
            RuaTokenKind::Arrow => "->"@,
            RuaTokenKind::FatArrow => "=>"@,
            RuaTokenKind::Dot => "."@,
            RuaTokenKind::DotDot => ".."@,
            RuaTokenKind::DotDotEq => "..="@,
            RuaTokenKind::Hash => "#"@,
            RuaTokenKind::Question => "?"@,
            RuaTokenKind::QuestionDot => "?."@,
            RuaTokenKind::QuestionQuestion => "??"@,
            RuaTokenKind::Amp => "&"@,
            RuaTokenKind::AndAnd => "&&"@,
            RuaTokenKind::Pipe => "|"@,
            RuaTokenKind::OrOr => "||"@,
            RuaTokenKind::Not => "!"@,
            RuaTokenKind::Eq => "="@,
            RuaTokenKind::EqEq => "=="@,
            RuaTokenKind::Ne => "!="@,
            RuaTokenKind::Lt => "<"@,
            RuaTokenKind::Le => "<="@,
            RuaTokenKind::Gt => ">"@,
            RuaTokenKind::Ge => ">="@,
            RuaTokenKind::Plus => "+"@,
            RuaTokenKind::PlusEq => "+="@,
            RuaTokenKind::Minus => "-"@,
            RuaTokenKind::MinusEq => "-="@,
            RuaTokenKind::Star => "*"@,
            RuaTokenKind::StarEq => "*="@,
            RuaTokenKind::Slash => "/"@,
            RuaTokenKind::SlashEq => "/="@,
            RuaTokenKind::Percent => "%"@,
            RuaTokenKind::PercentEq => "%="@,
        }
    }

    /// The kind as messages name it.
    pub fn user_string(self) -> (r: &'static str)
        ensures
            r@ == self.spec_user_string(),
    {
        match self {
            RuaTokenKind::Eof => "end of file",
            RuaTokenKind::Whitespace => "whitespace",
            RuaTokenKind::LineComment => "line comment",
            RuaTokenKind::BlockComment => "block comment",
            RuaTokenKind::Ident => "identifier",
            RuaTokenKind::Int => "integer literal",
            RuaTokenKind::Float => "float literal",
            RuaTokenKind::Str => "string literal",
            RuaTokenKind::KwAs => "as",
            RuaTokenKind::KwBreak => "break",
            RuaTokenKind::KwContinue => "continue",
            RuaTokenKind::KwDyn => "dyn",
            RuaTokenKind::KwElse => "else",
            RuaTokenKind::KwEnum => "enum",
            RuaTokenKind::KwExtern => "extern",
            RuaTokenKind::KwFalse => "false",
            RuaTokenKind::KwFn => "fn",
            RuaTokenKind::KwFor => "for",
            RuaTokenKind::KwIf => "if",
            RuaTokenKind::KwImpl => "impl",
            RuaTokenKind::KwIn => "in",
            RuaTokenKind::KwLet => "let",
            RuaTokenKind::KwLoop => "loop",
            RuaTokenKind::KwMatch => "match",
            RuaTokenKind::KwMod => "mod",
            RuaTokenKind::KwMut => "mut",
            RuaTokenKind::KwPub => "pub",
            RuaTokenKind::KwReturn => "return",
            RuaTokenKind::KwSelf => "self",
            RuaTokenKind::KwStruct => "struct",
            RuaTokenKind::KwTrait => "trait",
            RuaTokenKind::KwTrue => "true",
            RuaTokenKind::KwUse => "use",
            RuaTokenKind::KwWhile => "while",
            RuaTokenKind::LParen => "(",
            RuaTokenKind::RParen => ")",
            RuaTokenKind::LBrace => "{",
            RuaTokenKind::RBrace => "}",
            RuaTokenKind::LBracket => "[",
            RuaTokenKind::RBracket => "]",
            RuaTokenKind::Comma => ",",
            RuaTokenKind::Semi => ";",
            RuaTokenKind::Colon => ":",
            RuaTokenKind::ColonColon => "::",
            RuaTokenKind::Arrow => "->",
            RuaTokenKind::FatArrow => "=>",
            RuaTokenKind::Dot => ".",
            RuaTokenKind::DotDot => "..",
            RuaTokenKind::DotDotEq => "..=",
            RuaTokenKind::Hash => "#",
            RuaTokenKind::Question => "?",
            RuaTokenKind::QuestionDot => "?.",
            RuaTokenKind::QuestionQuestion => "??",
            RuaTokenKind::Amp => "&",
            RuaTokenKind::AndAnd => "&&",
            RuaTokenKind::Pipe => "|",
            RuaTokenKind::OrOr => "||",
            RuaTokenKind::Not => "!",
            RuaTokenKind::Eq => "=",
            RuaTokenKind::EqEq => "==",
            RuaTokenKind::Ne => "!=",
            RuaTokenKind::Lt => "<",
            RuaTokenKind::Le => "<=",
            RuaTokenKind::Gt => ">",
            RuaTokenKind::Ge => ">=",
            RuaTokenKind::Plus => "+",
            RuaTokenKind::PlusEq => "+=",
            RuaTokenKind::Minus => "-",
            RuaTokenKind::MinusEq => "-=",
            RuaTokenKind::Star => "*",
            RuaTokenKind::StarEq => "*=",
            RuaTokenKind::Slash => "/",
            RuaTokenKind::SlashEq => "/=",
            RuaTokenKind::Percent => "%",
            RuaTokenKind::PercentEq => "%=",
        }
    }
}

/// One piece of the text between two tokens.
#[derive(Debug)]
pub struct Trivia {
    pub kind: RuaTokenKind,
    pub text: String,
}

/// One token, with the text between it and the token before.
#[derive(Debug)]
pub struct TokenData {
    pub kind: RuaTokenKind,
    pub range: SourceRange,
    pub text: String,
    pub leading_trivia: Vec<Trivia>,
}

} // verus!
