//! The grammar: what a parser makes of a token stream. Every rule takes the input
//! and a place in it and gives the place behind what it read and a tree, or the
//! failure that ends the parse.

use vstd::prelude::*;

use crate::ast::{BinOp, ChunkEntry, ExprId, GenericParamId, PatternId, TraitRefId, TypeId, UnOp};
use crate::diag::{DiagRecord, DiagnosticCode, TextRange};
use crate::documentation::{has_blank_line, leading_documentation};
use crate::lexer::{behind, cursor_step, token_at, Cursor};
use crate::parser::meta::{annotation_ahead, attributes};
use crate::text::decimal;
use crate::token::{RuaTokenKind as T, SourceRange, Trivia};
use crate::tokenize::{LexErrorKind, StrictTokenStream, TokenizeError};
use crate::tree::{
    AnnotationDeclTree, BlockTree, ClosureBodyTree, ClosureParamTree, ElseBranchTree, EnumDeclTree,
    ExprKindTree, ExprTree, ExternBlockTree, ExternFnTree, FieldTree, FnDeclTree, GenericParamTree, ImplDeclTree,
    ItemTree, MatchArmTree, ParamTree, PatternTree, StmtTree, StructDeclTree, TraitDeclTree,
    TraitMethodTree, TraitRefTree, TypeTree, UseDeclTree, UseImportTree, VariantKindTree,
    VariantTree,
};

verus! {

/// What a parser reads.
pub struct Input {
    pub stream: StrictTokenStream,
    pub file: u32,
    pub max_nesting: nat,
}

/// A place in the input, with the identities that were not given yet.
pub struct At {
    pub cur: int,
    pub prev: Option<SourceRange>,
    pub next_expr: u32,
    pub next_pattern: u32,
    pub next_type: u32,
    pub next_trait_ref: u32,
    pub next_generic: u32,
}

/// Why a parse ended.
pub struct Failure {
    pub diagnostic: DiagRecord,
    pub line: usize,
    pub message: Seq<char>,
}

/// The outcome of a rule.
#[verifier::reject_recursive_types(V)]
pub enum Out<V> {
    Done(At, V),
    Fail(Failure),
}

/// A function header.
pub struct SigTree {
    pub name: Seq<char>,
    pub name_span: SourceRange,
    pub generics: Seq<GenericParamTree>,
    pub has_self: bool,
    pub receiver_mutable: bool,
    pub params: Seq<ParamTree>,
    pub ret: Option<TypeTree>,
}

/// The contents of a chunk.
pub struct ChunkTree {
    pub items: Seq<ItemTree>,
    pub block: BlockTree,
    pub source_order: Seq<ChunkEntry>,
}

impl Input {
    /// The kind of the token at a position.
    pub open spec fn kind(self, position: int) -> T {
        if 0 <= position < self.stream.tokens@.len() {
            self.stream.tokens@[position].kind
        } else {
            T::Eof
        }
    }

    /// The range of the token at a position.
    pub open spec fn range(self, position: int) -> SourceRange {
        token_at(self.stream, position).range
    }

    /// The text of the token at a position.
    pub open spec fn text(self, position: int) -> Seq<char> {
        token_at(self.stream, position).text@
    }

    /// The text before the token at a position, in pieces.
    pub open spec fn trivia(self, position: int) -> Seq<Trivia> {
        token_at(self.stream, position).leading_trivia@
    }
}

/// The number of tokens from a place on.
pub open spec fn rem(i: Input, p: At) -> nat {
    if 0 <= p.cur <= i.stream.tokens@.len() {
        (i.stream.tokens@.len() - p.cur) as nat
    } else {
        0
    }
}

/// A failure at a range.
pub open spec fn failure_at(range: SourceRange, code: DiagnosticCode, message: Seq<char>) -> Failure {
    Failure {
        diagnostic: DiagRecord {
            code,
            file: Some(range.file),
            range: Some(TextRange { start: range.start as u32, len: range.len as u32 }),
            arguments: seq![("message"@, message)],
        },
        line: range.line,
        message,
    }
}

/// The failure that a place without a token causes.
pub open spec fn lex_failure(error: TokenizeError) -> Failure {
    let code = match error.kind {
        LexErrorKind::UnterminatedString => DiagnosticCode::ParseUnterminatedString,
        LexErrorKind::UnterminatedBlockComment => DiagnosticCode::ParseUnterminatedComment,
        LexErrorKind::UnknownCharacter => DiagnosticCode::ParseUnexpectedToken,
    };
    failure_at(error.range, code, error.message@)
}

/// A failure at the current token.
pub open spec fn err(i: Input, p: At, message: Seq<char>) -> Failure {
    failure_at(
        SourceRange { file: i.file, ..i.range(p.cur) },
        DiagnosticCode::ParseUnexpectedToken,
        message,
    )
}

/// The failure of a text that is nested too deep.
pub open spec fn nest_error(i: Input, p: At) -> Failure {
    failure_at(
        SourceRange { file: i.file, ..i.range(p.cur) },
        DiagnosticCode::ParseResourceLimit,
        "parser nesting budget exceeded (limit "@ + decimal(i.max_nesting) + ")"@,
    )
}

/// Steps over the current token.
#[verifier::opaque]
pub open spec fn bump(i: Input, p: At) -> Out<()> {
    let total = i.stream.tokens@.len() as int;
    let next = behind(total, p.cur);
    let here = Cursor { current: p.cur, next, unread: behind(total, next), previous: p.prev };
    match cursor_step(i.stream, here) {
        Some(c) => Out::Done(At { cur: c.current, prev: c.previous, ..p }, ()),
        None => Out::Fail(lex_failure(i.stream.fault->0)),
    }
}

/// The number of bytes from the start of a range to the end of the last token.
pub open spec fn span_len(p: At, start: SourceRange) -> usize {
    let last = match p.prev {
        Some(range) => range,
        None => SourceRange::spec_empty(),
    };
    let end = if last.start + last.len > usize::MAX {
        usize::MAX as int
    } else {
        last.start + last.len
    };
    if end > start.start {
        (end - start.start) as usize
    } else {
        0
    }
}

/// The position of the first parameter with a name.
pub open spec fn named_from(generics: Seq<GenericParamTree>, name: Seq<char>, from: int) -> int
    decreases generics.len() - from,
{
    if from < 0 || from >= generics.len() || generics[from].name == name {
        from
    } else {
        named_from(generics, name, from + 1)
    }
}

/// The parameters, where the first one with a name has more bounds.
pub open spec fn with_bounds(
    generics: Seq<GenericParamTree>,
    name: Seq<char>,
    bounds: Seq<TraitRefTree>,
) -> Seq<GenericParamTree> {
    let k = named_from(generics, name, 0);
    if k < generics.len() {
        generics.update(
            k,
            GenericParamTree { bounds: generics[k].bounds + bounds, ..generics[k] },
        )
    } else {
        generics
    }
}

/// A block without statements.
pub open spec fn empty_block_tree() -> BlockTree {
    BlockTree {
        stmts: Seq::empty(),
        statement_blank_before: Seq::empty(),
        tail: None,
        tail_blank_before: false,
    }
}

/// A block with one more statement.
pub open spec fn with_stmt(block: BlockTree, statement: StmtTree, blank: bool) -> BlockTree {
    BlockTree {
        stmts: block.stmts.push(statement),
        statement_blank_before: block.statement_blank_before.push(blank),
        ..block
    }
}

/// A chunk with one more item.
pub open spec fn with_item(chunk: ChunkTree, item: ItemTree) -> ChunkTree {
    ChunkTree {
        items: chunk.items.push(item),
        source_order: chunk.source_order.push(ChunkEntry::Item(chunk.items.len() as usize)),
        ..chunk
    }
}

/// A chunk with one more statement.
pub open spec fn with_chunk_stmt(chunk: ChunkTree, statement: StmtTree, blank: bool) -> ChunkTree {
    ChunkTree {
        block: with_stmt(chunk.block, statement, blank),
        source_order: chunk.source_order.push(
            ChunkEntry::Statement(chunk.block.stmts.len() as usize),
        ),
        ..chunk
    }
}

/// Whether an expression ends a statement without a semicolon.
pub open spec fn is_block_like(expression: ExprTree) -> bool {
    match expression.kind {
        ExprKindTree::If { .. } | ExprKindTree::IfLet { .. } | ExprKindTree::Block(_)
        | ExprKindTree::Loop(_) | ExprKindTree::Match { .. } => true,
        _ => false,
    }
}

/// The operation of an assignment token; `=` has none.
pub open spec fn assign_op(kind: T) -> Option<Option<BinOp>> {
    match kind {
        T::Eq => Some(None),
        T::PlusEq => Some(Some(BinOp::Add)),
        T::MinusEq => Some(Some(BinOp::Sub)),
        T::StarEq => Some(Some(BinOp::Mul)),
        T::SlashEq => Some(Some(BinOp::Div)),
        T::PercentEq => Some(Some(BinOp::Rem)),
        _ => None,
    }
}

/// The operator of a token and how tight it binds.
pub open spec fn bin_op(kind: T) -> Option<(BinOp, nat)> {
    match kind {
        T::QuestionQuestion => Some((BinOp::Coalesce, 0)),
        T::OrOr => Some((BinOp::Or, 1)),
        T::AndAnd => Some((BinOp::And, 2)),
        T::EqEq => Some((BinOp::Eq, 3)),
        T::Ne => Some((BinOp::Ne, 3)),
        T::Lt => Some((BinOp::Lt, 3)),
        T::Le => Some((BinOp::Le, 3)),
        T::Gt => Some((BinOp::Gt, 3)),
        T::Ge => Some((BinOp::Ge, 3)),
        T::KwIn => Some((BinOp::Contains, 3)),
        T::Plus => Some((BinOp::Add, 5)),
        T::Minus => Some((BinOp::Sub, 5)),
        T::Star => Some((BinOp::Mul, 6)),
        T::Slash => Some((BinOp::Div, 6)),
        T::Percent => Some((BinOp::Rem, 6)),
        _ => None,
    }
}

/// The operator of a prefix token.
pub open spec fn unary_op(kind: T) -> Option<UnOp> {
    match kind {
        T::Minus => Some(UnOp::Neg),
        T::Not => Some(UnOp::Not),
        _ => None,
    }
}

/// The expression of a literal token.
pub open spec fn literal_kind(kind: T, text: Seq<char>) -> ExprKindTree {
    match kind {
        T::Int => ExprKindTree::Int(text),
        T::Float => ExprKindTree::Float(text),
        T::Str => ExprKindTree::Str(text),
        T::KwTrue => ExprKindTree::Bool(true),
        _ => ExprKindTree::Bool(false),
    }
}

/// Whether a token starts an item or an attribute of one.
pub open spec fn starts_item(kind: T) -> bool {
    match kind {
        T::KwPub | T::KwFn | T::KwStruct | T::KwEnum | T::KwImpl | T::KwTrait | T::KwExtern
        | T::KwUse | T::Hash => true,
        _ => false,
    }
}

/// Whether an item stands ahead.
pub open spec fn item_ahead(i: Input, p: At) -> bool {
    starts_item(i.kind(p.cur)) || annotation_ahead(i, p)
}

/// The start of the message for a text that holds no item.
pub open spec fn item_expected() -> Seq<char> {
    "expected item (`fn`/`struct`/`enum`/`impl`/`trait`/`extern`/`use`), found `"@
}

/// The first position from `from` on that is no quote.
pub open spec fn first_unquoted(s: Seq<char>, from: int) -> int
    decreases s.len() - from,
{
    if 0 <= from < s.len() && s[from] == '"' {
        first_unquoted(s, from + 1)
    } else {
        from
    }
}

/// The end of what is left of `s[from..to]` without quotes at its end.
pub open spec fn last_unquoted(s: Seq<char>, from: int, to: int) -> int
    decreases to - from,
{
    if 0 <= from < to <= s.len() && s[to - 1] == '"' {
        last_unquoted(s, from, to - 1)
    } else {
        to
    }
}

/// A text without quotes at both ends.
pub open spec fn unquoted(s: Seq<char>) -> Seq<char> {
    let from = first_unquoted(s, 0);
    s.subrange(from, last_unquoted(s, from, s.len() as int))
}

/// Whether Unicode gives a character the lowercase property.
pub uninterp spec fn has_lowercase(c: char) -> bool;

/// Whether a single name in a pattern binds.
pub open spec fn is_binding_name(name: Seq<char>) -> bool {
    name.len() > 0 && (has_lowercase(name[0]) || name[0] == '_')
}

/// Steps over a token of a kind.
#[verifier::opaque]
pub open spec fn expect(i: Input, p: At, kind: T) -> Out<()>
{
    if i.kind(p.cur) == kind {
        bump(i, p)
    } else {
        Out::Fail(err(i, p, "expected `"@ + kind.spec_user_string() + "`, found `"@ + i.kind(p.cur).spec_user_string() + "`"@))
    }
}

/// Steps over a token of a kind where there is one.
#[verifier::opaque]
pub open spec fn accept(i: Input, p: At, kind: T) -> Out<bool>
{
    if i.kind(p.cur) == kind {
        match bump(i, p) {
            Out::Fail(f) => Out::Fail(f),
            Out::Done(p, _) => {
                Out::Done(p, true)
            },
        }
    } else {
        Out::Done(p, false)
    }
}

/// An identifier.
#[verifier::opaque]
pub open spec fn ident(i: Input, p: At) -> Out<Seq<char>>
{
    if i.kind(p.cur) == T::Ident || i.kind(p.cur) == T::KwSelf {
        let name = i.text(p.cur);
        match bump(i, p) {
            Out::Fail(f) => Out::Fail(f),
            Out::Done(p, _) => {
                Out::Done(p, name)
            },
        }
    } else {
        Out::Fail(err(i, p, "expected identifier, found `"@ + i.kind(p.cur).spec_user_string() + "`"@))
    }
}

/// An expression from a start up to the last token.
#[verifier::opaque]
pub open spec fn make(i: Input, p: At, kind: ExprKindTree, start: SourceRange) -> Out<ExprTree>
{
    if p.next_expr == u32::MAX {
        Out::Fail(err(i, p, "expression ID overflow"@))
    } else {
        Out::Done(At {
            next_expr: (p.next_expr + 1) as u32, ..p
        },
        ExprTree {
            id: ExprId {
                file: i.file, local: p.next_expr
            },
            kind, span: SourceRange::spec_new(start.start, span_len(p, start), start.line)
        })
    }
}

/// The next pattern identity.
#[verifier::opaque]
pub open spec fn pattern_id(i: Input, p: At) -> Out<PatternId>
{
    if p.next_pattern == u32::MAX {
        Out::Fail(err(i, p, "pattern ID overflow"@))
    } else {
        Out::Done(At {
            next_pattern: (p.next_pattern + 1) as u32, ..p
        },
        PatternId {
            file: i.file, local: p.next_pattern
        })
    }
}

/// The next type identity.
#[verifier::opaque]
pub open spec fn type_id(i: Input, p: At) -> Out<TypeId>
{
    if p.next_type == u32::MAX {
        Out::Fail(err(i, p, "type ID overflow"@))
    } else {
        Out::Done(At {
            next_type: (p.next_type + 1) as u32, ..p
        },
        TypeId {
            file: i.file, local: p.next_type
        })
    }
}

/// A bound with the next identity.
#[verifier::opaque]
pub open spec fn trait_ref(i: Input, p: At, path: Seq<char>) -> Out<TraitRefTree>
{
    if p.next_trait_ref == u32::MAX {
        Out::Fail(err(i, p, "trait reference ID overflow"@))
    } else {
        Out::Done(At {
            next_trait_ref: (p.next_trait_ref + 1) as u32, ..p
        },
        TraitRefTree {
            id: TraitRefId {
                file: i.file, local: p.next_trait_ref
            },
            path
        })
    }
}

/// The next parameter identity.
#[verifier::opaque]
pub open spec fn generic_id(i: Input, p: At) -> Out<GenericParamId>
{
    if p.next_generic == u32::MAX {
        Out::Fail(err(i, p, "generic parameter ID overflow"@))
    } else {
        Out::Done(At {
            next_generic: (p.next_generic + 1) as u32, ..p
        },
        GenericParamId {
            file: i.file, local: p.next_generic
        })
    }
}

/// The rest of a `::` path behind its first name.
#[verifier::opaque]
pub open spec fn path_rest(i: Input, p: At, text: Seq<char>) -> Out<Seq<char>>
    decreases rem(i, p),
{
    if i.kind(p.cur) == T::ColonColon {
        let q = p;
        match bump(i, p) {
            Out::Fail(f) => Out::Fail(f),
            Out::Done(p, _) => {
                match ident(i, p) {
                    Out::Fail(f) => Out::Fail(f),
                    Out::Done(p, name) => {
                        if rem(i, p) < rem(i, q) {
                            path_rest(i, p, text + "::"@ + name)
                        } else {
                            Out::Done(p, text)
                        }
                    },
                }
            },
        }
    } else {
        Out::Done(p, text)
    }
}

/// The rest of a `::` path behind its first names.
#[verifier::opaque]
pub open spec fn segments(i: Input, p: At, done: Seq<Seq<char>>) -> Out<Seq<Seq<char>>>
    decreases rem(i, p),
{
    if i.kind(p.cur) == T::ColonColon {
        let q = p;
        match bump(i, p) {
            Out::Fail(f) => Out::Fail(f),
            Out::Done(p, _) => {
                match ident(i, p) {
                    Out::Fail(f) => Out::Fail(f),
                    Out::Done(p, name) => {
                        if rem(i, p) < rem(i, q) {
                            segments(i, p, done.push(name))
                        } else {
                            Out::Done(p, done)
                        }
                    },
                }
            },
        }
    } else {
        Out::Done(p, done)
    }
}

/// Steps behind the bracket that closes `depth` open ones.
#[verifier::opaque]
pub open spec fn skip_from(i: Input, p: At, depth: nat) -> Out<()>
    decreases rem(i, p),
{
    if i.kind(p.cur) == T::Eof {
        Out::Fail(err(i, p, "unterminated `<...>`"@))
    } else if i.kind(p.cur) == T::Gt && depth <= 1 {
        bump(i, p)
    } else {
        let deeper = if i.kind(p.cur) == T::Lt {
            depth + 1
        } else if i.kind(p.cur) == T::Gt {
            (depth - 1) as nat
        } else {
            depth
        };
        let q = p;
        match bump(i, p) {
            Out::Fail(f) => Out::Fail(f),
            Out::Done(p, _) => {
                if rem(i, p) < rem(i, q) {
                    skip_from(i, p, deeper)
                } else {
                    Out::Done(p, ())
                }
            },
        }
    }
}

/// Steps over an optional `<...>`.
#[verifier::opaque]
pub open spec fn skip_generics(i: Input, p: At) -> Out<()>
{
    if i.kind(p.cur) == T::Lt {
        skip_from(i, p, 0)
    } else {
        Out::Done(p, ())
    }
}

/// Bounds joined by `+`.
#[verifier::opaque]
pub open spec fn bounds(i: Input, p: At, done: Seq<TraitRefTree>) -> Out<Seq<TraitRefTree>>
    decreases rem(i, p),
{
    let q = p;
    match ident(i, p) {
        Out::Fail(f) => Out::Fail(f),
        Out::Done(p, first) => {
            match path_rest(i, p, first) {
                Out::Fail(f) => Out::Fail(f),
                Out::Done(p, path) => {
                    match skip_generics(i, p) {
                        Out::Fail(f) => Out::Fail(f),
                        Out::Done(p, _) => {
                            match trait_ref(i, p, path) {
                                Out::Fail(f) => Out::Fail(f),
                                Out::Done(p, bound) => {
                                    match accept(i, p, T::Plus) {
                                        Out::Fail(f) => Out::Fail(f),
                                        Out::Done(p, more) => {
                                            if more && rem(i, p) < rem(i, q) {
                                                bounds(i, p, done.push(bound))
                                            } else {
                                                Out::Done(p, done.push(bound))
                                            }
                                        },
                                    }
                                },
                            }
                        },
                    }
                },
            }
        },
    }
}

/// Bounds behind a colon, where there is one.
#[verifier::opaque]
pub open spec fn optional_bounds(i: Input, p: At) -> Out<Seq<TraitRefTree>>
{
    match accept(i, p, T::Colon) {
        Out::Fail(f) => Out::Fail(f),
        Out::Done(p, some) => {
            if some {
                bounds(i, p, Seq::empty())
            } else {
                Out::Done(p, Seq::empty())
            }
        },
    }
}

/// Generic parameters up to the closing bracket.
#[verifier::opaque]
pub open spec fn generic_list(i: Input, p: At, done: Seq<GenericParamTree>) -> Out<Seq<GenericParamTree>>
    decreases rem(i, p),
{
    if i.kind(p.cur) == T::Gt {
        Out::Done(p, done)
    } else {
        let q = p;
        match ident(i, p) {
            Out::Fail(f) => Out::Fail(f),
            Out::Done(p, name) => {
                match optional_bounds(i, p) {
                    Out::Fail(f) => Out::Fail(f),
                    Out::Done(p, bounds) => {
                        match generic_id(i, p) {
                            Out::Fail(f) => Out::Fail(f),
                            Out::Done(p, id) => {
                                let done = done.push(GenericParamTree {
                                    id, name, bounds
                                });
                                match accept(i, p, T::Comma) {
                                    Out::Fail(f) => Out::Fail(f),
                                    Out::Done(p, more) => {
                                        if more && rem(i, p) < rem(i, q) {
                                            generic_list(i, p, done)
                                        } else {
                                            Out::Done(p, done)
                                        }
                                    },
                                }
                            },
                        }
                    },
                }
            },
        }
    }
}

/// An optional generic parameter list.
#[verifier::opaque]
pub open spec fn generics(i: Input, p: At) -> Out<Seq<GenericParamTree>>
{
    if i.kind(p.cur) == T::Lt {
        match bump(i, p) {
            Out::Fail(f) => Out::Fail(f),
            Out::Done(p, _) => {
                match generic_list(i, p, Seq::empty()) {
                    Out::Fail(f) => Out::Fail(f),
                    Out::Done(p, list) => {
                        match expect(i, p, T::Gt) {
                            Out::Fail(f) => Out::Fail(f),
                            Out::Done(p, _) => {
                                Out::Done(p, list)
                            },
                        }
                    },
                }
            },
        }
    } else {
        Out::Done(p, Seq::empty())
    }
}

/// Steps over the rest of a `::` path; whether there was one.
#[verifier::opaque]
pub open spec fn qualified_rest(i: Input, p: At, some: bool) -> Out<bool>
    decreases rem(i, p),
{
    if i.kind(p.cur) == T::ColonColon {
        let q = p;
        match bump(i, p) {
            Out::Fail(f) => Out::Fail(f),
            Out::Done(p, _) => {
                match ident(i, p) {
                    Out::Fail(f) => Out::Fail(f),
                    Out::Done(p, _) => {
                        if rem(i, p) < rem(i, q) {
                            qualified_rest(i, p, true)
                        } else {
                            Out::Done(p, true)
                        }
                    },
                }
            },
        }
    } else {
        Out::Done(p, some)
    }
}

/// The predicates of a `where` clause.
#[verifier::opaque]
pub open spec fn where_list(i: Input, p: At, generics: Seq<GenericParamTree>) -> Out<Seq<GenericParamTree>>
    decreases rem(i, p),
{
    if i.kind(p.cur) == T::LBrace || i.kind(p.cur) == T::Semi || i.kind(p.cur) == T::Eof {
        Out::Done(p, generics)
    } else {
        let q = p;
        match ident(i, p) {
            Out::Fail(f) => Out::Fail(f),
            Out::Done(p, name) => {
                match qualified_rest(i, p, false) {
                    Out::Fail(f) => Out::Fail(f),
                    Out::Done(p, qualified) => {
                        let angled = i.kind(p.cur) == T::Lt;
                        match skip_generics(i, p) {
                            Out::Fail(f) => Out::Fail(f),
                            Out::Done(p, _) => {
                                match optional_bounds(i, p) {
                                    Out::Fail(f) => Out::Fail(f),
                                    Out::Done(p, bounds) => {
                                        let generics = if qualified || angled {
                                            generics
                                        } else {
                                            with_bounds(generics, name, bounds)
                                        };
                                        match accept(i, p, T::Comma) {
                                            Out::Fail(f) => Out::Fail(f),
                                            Out::Done(p, more) => {
                                                if more && rem(i, p) < rem(i, q) {
                                                    where_list(i, p, generics)
                                                } else {
                                                    Out::Done(p, generics)
                                                }
                                            },
                                        }
                                    },
                                }
                            },
                        }
                    },
                }
            },
        }
    }
}

/// An optional `where` clause; its bounds join those of the parameters.
#[verifier::opaque]
pub open spec fn where_clause(i: Input, p: At, generics: Seq<GenericParamTree>) -> Out<Seq<GenericParamTree>>
{
    if i.kind(p.cur) == T::Ident && i.text(p.cur) == "where"@ {
        match bump(i, p) {
            Out::Fail(f) => Out::Fail(f),
            Out::Done(p, _) => {
                where_list(i, p, generics)
            },
        }
    } else {
        Out::Done(p, generics)
    }
}

/// A type.
pub open spec fn p_type(i: Input, p: At, d: nat) -> Out<TypeTree>
    decreases i.max_nesting - d, 0int, rem(i, p), 0int,
{
    if d >= i.max_nesting {
        Out::Fail(nest_error(i, p))
    } else {
        type_inner(i, p, d + 1)
    }
}

/// Types up to a closing token.
pub open spec fn types(i: Input, p: At, d: nat, close: T, done: Seq<TypeTree>) -> Out<Seq<TypeTree>>
    decreases i.max_nesting - d, 2int, rem(i, p), 0int,
{
    if i.kind(p.cur) == close {
        Out::Done(p, done)
    } else {
        let q = p;
        match p_type(i, p, d) {
            Out::Fail(f) => Out::Fail(f),
            Out::Done(p, ty) => {
                match accept(i, p, T::Comma) {
                    Out::Fail(f) => Out::Fail(f),
                    Out::Done(p, more) => {
                        if more && rem(i, p) < rem(i, q) {
                            types(i, p, d, close, done.push(ty))
                        } else {
                            Out::Done(p, done.push(ty))
                        }
                    },
                }
            },
        }
    }
}

/// A function type behind `fn`.
pub open spec fn function_type(i: Input, p: At, d: nat) -> Out<TypeTree>
    decreases i.max_nesting - d, 4int, rem(i, p), 0int,
{
    match expect(i, p, T::LParen) {
        Out::Fail(f) => Out::Fail(f),
        Out::Done(p, _) => {
            match types(i, p, d, T::RParen, Seq::empty()) {
                Out::Fail(f) => Out::Fail(f),
                Out::Done(p, params) => {
                    match expect(i, p, T::RParen) {
                        Out::Fail(f) => Out::Fail(f),
                        Out::Done(p, _) => {
                            match accept(i, p, T::Arrow) {
                                Out::Fail(f) => Out::Fail(f),
                                Out::Done(p, some) => {
                                    if some {
                                        match p_type(i, p, d) {
                                            Out::Fail(f) => Out::Fail(f),
                                            Out::Done(p, ret) => {
                                                Out::Done(p, TypeTree::Function {
                                                    params, ret: Box::new(ret)
                                                })
                                            },
                                        }
                                    } else {
                                        Out::Done(p, TypeTree::Function {
                                            params, ret: Box::new(TypeTree::Unit)
                                        })
                                    }
                                },
                            }
                        },
                    }
                },
            }
        },
    }
}

/// A unit, a grouped type or a tuple type behind `(`.
pub open spec fn group_type(i: Input, p: At, d: nat) -> Out<TypeTree>
    decreases i.max_nesting - d, 4int, rem(i, p), 0int,
{
    match accept(i, p, T::RParen) {
        Out::Fail(f) => Out::Fail(f),
        Out::Done(p, unit) => {
            if unit {
                Out::Done(p, TypeTree::Unit)
            } else {
                match p_type(i, p, d) {
                    Out::Fail(f) => Out::Fail(f),
                    Out::Done(p, first) => {
                        match accept(i, p, T::Comma) {
                            Out::Fail(f) => Out::Fail(f),
                            Out::Done(p, more) => {
                                if more {
                                    match types(i, p, d, T::RParen, seq![first]) {
                                        Out::Fail(f) => Out::Fail(f),
                                        Out::Done(p, list) => {
                                            match expect(i, p, T::RParen) {
                                                Out::Fail(f) => Out::Fail(f),
                                                Out::Done(p, _) => {
                                                    Out::Done(p, TypeTree::Tuple(list))
                                                },
                                            }
                                        },
                                    }
                                } else {
                                    match expect(i, p, T::RParen) {
                                        Out::Fail(f) => Out::Fail(f),
                                        Out::Done(p, _) => {
                                            Out::Done(p, first)
                                        },
                                    }
                                }
                            },
                        }
                    },
                }
            }
        },
    }
}

/// A named type.
pub open spec fn path_type(i: Input, p: At, d: nat) -> Out<TypeTree>
    decreases i.max_nesting - d, 4int, rem(i, p), 0int,
{
    match ident(i, p) {
        Out::Fail(f) => Out::Fail(f),
        Out::Done(p, first) => {
            match path_rest(i, p, first) {
                Out::Fail(f) => Out::Fail(f),
                Out::Done(p, name) => {
                    match accept(i, p, T::Lt) {
                        Out::Fail(f) => Out::Fail(f),
                        Out::Done(p, angled) => {
                            if angled {
                                match types(i, p, d, T::Gt, Seq::empty()) {
                                    Out::Fail(f) => Out::Fail(f),
                                    Out::Done(p, args) => {
                                        match expect(i, p, T::Gt) {
                                            Out::Fail(f) => Out::Fail(f),
                                            Out::Done(p, _) => {
                                                match type_id(i, p) {
                                                    Out::Fail(f) => Out::Fail(f),
                                                    Out::Done(p, id) => {
                                                        Out::Done(p, TypeTree::Path {
                                                            id, name, args
                                                        })
                                                    },
                                                }
                                            },
                                        }
                                    },
                                }
                            } else {
                                match type_id(i, p) {
                                    Out::Fail(f) => Out::Fail(f),
                                    Out::Done(p, id) => {
                                        Out::Done(p, TypeTree::Path {
                                            id, name, args: Seq::empty()
                                        })
                                    },
                                }
                            }
                        },
                    }
                },
            }
        },
    }
}

/// A type, one level further in.
pub open spec fn type_inner(i: Input, p: At, d: nat) -> Out<TypeTree>
    decreases i.max_nesting - d, 9int, rem(i, p), 0int,
{
    if i.kind(p.cur) == T::KwFn {
        match bump(i, p) {
            Out::Fail(f) => Out::Fail(f),
            Out::Done(p, _) => {
                function_type(i, p, d)
            },
        }
    } else if i.kind(p.cur) == T::Amp {
        match bump(i, p) {
            Out::Fail(f) => Out::Fail(f),
            Out::Done(p, _) => {
                match accept(i, p, T::KwMut) {
                    Out::Fail(f) => Out::Fail(f),
                    Out::Done(p, mutable) => {
                        match accept(i, p, T::KwDyn) {
                            Out::Fail(f) => Out::Fail(f),
                            Out::Done(p, _) => {
                                match p_type(i, p, d) {
                                    Out::Fail(f) => Out::Fail(f),
                                    Out::Done(p, inner) => {
                                        Out::Done(p, TypeTree::Ref {
                                            mutable, inner: Box::new(inner)
                                        })
                                    },
                                }
                            },
                        }
                    },
                }
            },
        }
    } else if i.kind(p.cur) == T::LParen {
        match bump(i, p) {
            Out::Fail(f) => Out::Fail(f),
            Out::Done(p, _) => {
                group_type(i, p, d)
            },
        }
    } else {
        path_type(i, p, d)
    }
}

/// A type behind a mark, where there is one.
pub open spec fn optional_type(i: Input, p: At, d: nat, mark: T) -> Out<Option<TypeTree>>
    decreases i.max_nesting - d, 2int, rem(i, p), 0int,
{
    match accept(i, p, mark) {
        Out::Fail(f) => Out::Fail(f),
        Out::Done(p, some) => {
            if some {
                match p_type(i, p, d) {
                    Out::Fail(f) => Out::Fail(f),
                    Out::Done(p, ty) => {
                        Out::Done(p, Some(ty))
                    },
                }
            } else {
                Out::Done(p, None)
            }
        },
    }
}

/// A block.
pub open spec fn p_block(i: Input, p: At, d: nat, ns: bool) -> Out<BlockTree>
    decreases i.max_nesting - d, 0int, rem(i, p), 0int,
{
    if d >= i.max_nesting {
        Out::Fail(nest_error(i, p))
    } else {
        block_inner(i, p, d + 1, ns)
    }
}

/// An expression.
pub open spec fn p_expr(i: Input, p: At, d: nat, ns: bool) -> Out<ExprTree>
    decreases i.max_nesting - d, 0int, rem(i, p), 0int,
{
    if d >= i.max_nesting {
        Out::Fail(nest_error(i, p))
    } else {
        expr_inner(i, p, d + 1, ns)
    }
}

/// Operators that bind at least as tight as a bound.
pub open spec fn p_bin(i: Input, p: At, d: nat, ns: bool, min: nat) -> Out<ExprTree>
    decreases i.max_nesting - d, 0int, rem(i, p), 0int,
{
    if d >= i.max_nesting {
        Out::Fail(nest_error(i, p))
    } else {
        bin_inner(i, p, d + 1, ns, min)
    }
}

/// A prefix expression.
pub open spec fn p_unary(i: Input, p: At, d: nat, ns: bool) -> Out<ExprTree>
    decreases i.max_nesting - d, 0int, rem(i, p), 0int,
{
    if d >= i.max_nesting {
        Out::Fail(nest_error(i, p))
    } else {
        unary_inner(i, p, d + 1, ns)
    }
}

/// A pattern.
pub open spec fn p_pattern(i: Input, p: At, d: nat, ns: bool) -> Out<PatternTree>
    decreases i.max_nesting - d, 0int, rem(i, p), 0int,
{
    if d >= i.max_nesting {
        Out::Fail(nest_error(i, p))
    } else {
        pattern_inner(i, p, d + 1, ns)
    }
}

/// A literal in a pattern.
pub open spec fn pattern_literal(i: Input, p: At, d: nat, ns: bool) -> Out<ExprTree>
    decreases i.max_nesting - d, 0int, rem(i, p), 0int,
{
    if d >= i.max_nesting {
        Out::Fail(nest_error(i, p))
    } else {
        literal_inner(i, p, d + 1, ns)
    }
}

/// An optional expression up to a semicolon.
pub open spec fn optional_value(i: Input, p: At, d: nat, ns: bool) -> Out<Option<ExprTree>>
    decreases i.max_nesting - d, 1int, rem(i, p), 0int,
{
    match accept(i, p, T::Semi) {
        Out::Fail(f) => Out::Fail(f),
        Out::Done(p, bare) => {
            if bare {
                Out::Done(p, None)
            } else {
                match p_expr(i, p, d, ns) {
                    Out::Fail(f) => Out::Fail(f),
                    Out::Done(p, value) => {
                        match expect(i, p, T::Semi) {
                            Out::Fail(f) => Out::Fail(f),
                            Out::Done(p, _) => {
                                Out::Done(p, Some(value))
                            },
                        }
                    },
                }
            }
        },
    }
}

/// A `break`.
pub open spec fn break_stmt(i: Input, p: At, d: nat, ns: bool) -> Out<StmtTree>
    decreases i.max_nesting - d, 2int, rem(i, p), 0int,
{
    match expect(i, p, T::KwBreak) {
        Out::Fail(f) => Out::Fail(f),
        Out::Done(p, _) => {
            match optional_value(i, p, d, ns) {
                Out::Fail(f) => Out::Fail(f),
                Out::Done(p, value) => {
                    Out::Done(p, StmtTree::Break(value))
                },
            }
        },
    }
}

/// A `let`.
pub open spec fn let_stmt(i: Input, p: At, d: nat, ns: bool) -> Out<StmtTree>
    decreases i.max_nesting - d, 2int, rem(i, p), 0int,
{
    match expect(i, p, T::KwLet) {
        Out::Fail(f) => Out::Fail(f),
        Out::Done(p, _) => {
            match accept(i, p, T::KwMut) {
                Out::Fail(f) => Out::Fail(f),
                Out::Done(p, mutable) => {
                    let name_span = i.range(p.cur);
                    match ident(i, p) {
                        Out::Fail(f) => Out::Fail(f),
                        Out::Done(p, name) => {
                            match optional_type(i, p, d, T::Colon) {
                                Out::Fail(f) => Out::Fail(f),
                                Out::Done(p, ty) => {
                                    match expect(i, p, T::Eq) {
                                        Out::Fail(f) => Out::Fail(f),
                                        Out::Done(p, _) => {
                                            match p_expr(i, p, d, ns) {
                                                Out::Fail(f) => Out::Fail(f),
                                                Out::Done(p, init) => {
                                                    match expect(i, p, T::Semi) {
                                                        Out::Fail(f) => Out::Fail(f),
                                                        Out::Done(p, _) => {
                                                            Out::Done(p, StmtTree::Let {
                                                                name,
                                                                name_span,
                                                                mutable,
                                                                ty,
                                                                init,
                                                            })
                                                        },
                                                    }
                                                },
                                            }
                                        },
                                    }
                                },
                            }
                        },
                    }
                },
            }
        },
    }
}

/// A `return`.
pub open spec fn return_stmt(i: Input, p: At, d: nat, ns: bool) -> Out<StmtTree>
    decreases i.max_nesting - d, 2int, rem(i, p), 0int,
{
    match expect(i, p, T::KwReturn) {
        Out::Fail(f) => Out::Fail(f),
        Out::Done(p, _) => {
            match optional_value(i, p, d, ns) {
                Out::Fail(f) => Out::Fail(f),
                Out::Done(p, value) => {
                    Out::Done(p, StmtTree::Return(value))
                },
            }
        },
    }
}

/// A `while` or a `while let`.
pub open spec fn while_stmt(i: Input, p: At, d: nat, ns: bool) -> Out<StmtTree>
    decreases i.max_nesting - d, 2int, rem(i, p), 0int,
{
    match expect(i, p, T::KwWhile) {
        Out::Fail(f) => Out::Fail(f),
        Out::Done(p, _) => {
            if i.kind(p.cur) == T::KwLet {
                match expect(i, p, T::KwLet) {
                    Out::Fail(f) => Out::Fail(f),
                    Out::Done(p, _) => {
                        match p_pattern(i, p, d, ns) {
                            Out::Fail(f) => Out::Fail(f),
                            Out::Done(p, pat) => {
                                match expect(i, p, T::Eq) {
                                    Out::Fail(f) => Out::Fail(f),
                                    Out::Done(p, _) => {
                                        match p_expr(i, p, d, true) {
                                            Out::Fail(f) => Out::Fail(f),
                                            Out::Done(p, expr) => {
                                                match p_block(i, p, d, ns) {
                                                    Out::Fail(f) => Out::Fail(f),
                                                    Out::Done(p, body) => {
                                                        Out::Done(p, StmtTree::WhileLet {
                                                            pat: Box::new(pat), expr, body
                                                        })
                                                    },
                                                }
                                            },
                                        }
                                    },
                                }
                            },
                        }
                    },
                }
            } else {
                match p_expr(i, p, d, true) {
                    Out::Fail(f) => Out::Fail(f),
                    Out::Done(p, cond) => {
                        match p_block(i, p, d, ns) {
                            Out::Fail(f) => Out::Fail(f),
                            Out::Done(p, body) => {
                                Out::Done(p, StmtTree::While {
                                    cond, body
                                })
                            },
                        }
                    },
                }
            }
        },
    }
}

/// A `for`.
pub open spec fn for_stmt(i: Input, p: At, d: nat, ns: bool) -> Out<StmtTree>
    decreases i.max_nesting - d, 2int, rem(i, p), 0int,
{
    match expect(i, p, T::KwFor) {
        Out::Fail(f) => Out::Fail(f),
        Out::Done(p, _) => {
            let var_span = i.range(p.cur);
            match ident(i, p) {
                Out::Fail(f) => Out::Fail(f),
                Out::Done(p, var) => {
                    match expect(i, p, T::KwIn) {
                        Out::Fail(f) => Out::Fail(f),
                        Out::Done(p, _) => {
                            match p_expr(i, p, d, true) {
                                Out::Fail(f) => Out::Fail(f),
                                Out::Done(p, iter) => {
                                    match p_block(i, p, d, ns) {
                                        Out::Fail(f) => Out::Fail(f),
                                        Out::Done(p, body) => {
                                            Out::Done(p, StmtTree::For {
                                                var, var_span, iter, body
                                            })
                                        },
                                    }
                                },
                            }
                        },
                    }
                },
            }
        },
    }
}

/// A statement that starts with a keyword of its own; none where the text holds
/// an expression.
pub open spec fn keyword_stmt(i: Input, p: At, d: nat, ns: bool) -> Out<Option<StmtTree>>
    decreases i.max_nesting - d, 3int, rem(i, p), 0int,
{
    match i.kind(p.cur) {
        T::KwLet => {
            match let_stmt(i, p, d, ns) {
                Out::Fail(f) => Out::Fail(f),
                Out::Done(p, s) => {
                    Out::Done(p, Some(s))
                },
            }
        },
        T::KwReturn => {
            match return_stmt(i, p, d, ns) {
                Out::Fail(f) => Out::Fail(f),
                Out::Done(p, s) => {
                    Out::Done(p, Some(s))
                },
            }
        },
        T::KwWhile => {
            match while_stmt(i, p, d, ns) {
                Out::Fail(f) => Out::Fail(f),
                Out::Done(p, s) => {
                    Out::Done(p, Some(s))
                },
            }
        },
        T::KwFor => {
            match for_stmt(i, p, d, ns) {
                Out::Fail(f) => Out::Fail(f),
                Out::Done(p, s) => {
                    Out::Done(p, Some(s))
                },
            }
        },
        T::KwBreak => {
            match break_stmt(i, p, d, ns) {
                Out::Fail(f) => Out::Fail(f),
                Out::Done(p, s) => {
                    Out::Done(p, Some(s))
                },
            }
        },
        T::KwContinue => {
            match bump(i, p) {
                Out::Fail(f) => Out::Fail(f),
                Out::Done(p, _) => {
                    match expect(i, p, T::Semi) {
                        Out::Fail(f) => Out::Fail(f),
                        Out::Done(p, _) => {
                            Out::Done(p, Some(StmtTree::Continue))
                        },
                    }
                },
            }
        },
        _ => {
            Out::Done(p, None)
        },
    }
}

/// The statements of a block up to its closing brace.
pub open spec fn block_stmts(i: Input, p: At, d: nat, ns: bool, done: BlockTree) -> Out<BlockTree>
    decreases i.max_nesting - d, 4int, rem(i, p), 0int,
{
    if i.kind(p.cur) == T::RBrace || i.kind(p.cur) == T::Eof {
        Out::Done(p, done)
    } else {
        let q = p;
        let blank = has_blank_line(i.trivia(p.cur), 0);
        match keyword_stmt(i, p, d, ns) {
            Out::Fail(f) => Out::Fail(f),
            Out::Done(p, keyword) => {
                match keyword {
                    Some(s) => {
                        if rem(i, p) < rem(i, q) {
                            block_stmts(i, p, d, ns, with_stmt(done, s, blank))
                        } else {
                            Out::Done(p, done)
                        }
                    },
                    None => {
                        match p_expr(i, p, d, ns) {
                            Out::Fail(f) => Out::Fail(f),
                            Out::Done(p, e) => {
                                match accept(i, p, T::Semi) {
                                    Out::Fail(f) => Out::Fail(f),
                                    Out::Done(p, closed) => {
                                        if closed || (i.kind(p.cur) != T::RBrace && is_block_like(e)) {
                                            if rem(i, p) < rem(i, q) {
                                                block_stmts(i, p, d, ns, with_stmt(done, StmtTree::Expr(e), blank))
                                            } else {
                                                Out::Done(p, done)
                                            }
                                        } else if i.kind(p.cur) == T::RBrace {
                                            Out::Done(p, BlockTree {
                                                tail: Some(Box::new(e)),
                                                tail_blank_before: blank,
                                                ..done
                                            })
                                        } else {
                                            Out::Fail(err(i, p, "expected `;` or `}`, found `"@ + i.kind(p.cur).spec_user_string() + "`"@))
                                        }
                                    },
                                }
                            },
                        }
                    },
                }
            },
        }
    }
}

/// A block, one level further in.
pub open spec fn block_inner(i: Input, p: At, d: nat, ns: bool) -> Out<BlockTree>
    decreases i.max_nesting - d, 5int, rem(i, p), 0int,
{
    match expect(i, p, T::LBrace) {
        Out::Fail(f) => Out::Fail(f),
        Out::Done(p, _) => {
            match block_stmts(i, p, d, false, empty_block_tree()) {
                Out::Fail(f) => Out::Fail(f),
                Out::Done(p, block) => {
                    match expect(i, p, T::RBrace) {
                        Out::Fail(f) => Out::Fail(f),
                        Out::Done(p, _) => {
                            Out::Done(p, block)
                        },
                    }
                },
            }
        },
    }
}

/// An expression, one level further in.
pub open spec fn expr_inner(i: Input, p: At, d: nat, ns: bool) -> Out<ExprTree>
    decreases i.max_nesting - d, 9int, rem(i, p), 0int,
{
    let start = i.range(p.cur);
    match p_bin(i, p, d, ns, 0) {
        Out::Fail(f) => Out::Fail(f),
        Out::Done(p, lhs) => {
            match assign_op(i.kind(p.cur)) {
                Some(op) => {
                    match bump(i, p) {
                        Out::Fail(f) => Out::Fail(f),
                        Out::Done(p, _) => {
                            match p_expr(i, p, d, ns) {
                                Out::Fail(f) => Out::Fail(f),
                                Out::Done(p, value) => {
                                    make(i, p, ExprKindTree::Assign {
                                        op, target: Box::new(lhs), value: Box::new(value)
                                    },
                                    start)
                                },
                            }
                        },
                    }
                },
                None => {
                    Out::Done(p, lhs)
                },
            }
        },
    }
}

/// The operators behind a first operand.
pub open spec fn bin_rest(i: Input, p: At, d: nat, ns: bool, min: nat, start: SourceRange, lhs: ExprTree) -> Out<ExprTree>
    decreases i.max_nesting - d, 2int, rem(i, p), 0int,
{
    if i.kind(p.cur) == T::DotDot || i.kind(p.cur) == T::DotDotEq {
        if 4 < min {
            Out::Done(p, lhs)
        } else {
            let q = p;
            let inclusive = i.kind(p.cur) == T::DotDotEq;
            match bump(i, p) {
                Out::Fail(f) => Out::Fail(f),
                Out::Done(p, _) => {
                    match p_bin(i, p, d, ns, 5) {
                        Out::Fail(f) => Out::Fail(f),
                        Out::Done(p, rhs) => {
                            match make(i, p, ExprKindTree::Range {
                                start: Box::new(lhs), end: Box::new(rhs), inclusive
                            },
                            start) {
                                Out::Fail(f) => Out::Fail(f),
                                Out::Done(p, e) => {
                                    if rem(i, p) < rem(i, q) {
                                        bin_rest(i, p, d, ns, min, start, e)
                                    } else {
                                        Out::Done(p, e)
                                    }
                                },
                            }
                        },
                    }
                },
            }
        }
    } else {
        match bin_op(i.kind(p.cur)) {
            Some((op, tight)) => {
                if tight < min {
                    Out::Done(p, lhs)
                } else {
                    let q = p;
                    match bump(i, p) {
                        Out::Fail(f) => Out::Fail(f),
                        Out::Done(p, _) => {
                            match p_bin(i, p, d, ns, tight + 1) {
                                Out::Fail(f) => Out::Fail(f),
                                Out::Done(p, rhs) => {
                                    match make(i, p, ExprKindTree::Binary {
                                        op, lhs: Box::new(lhs), rhs: Box::new(rhs)
                                    },
                                    start) {
                                        Out::Fail(f) => Out::Fail(f),
                                        Out::Done(p, e) => {
                                            if rem(i, p) < rem(i, q) {
                                                bin_rest(i, p, d, ns, min, start, e)
                                            } else {
                                                Out::Done(p, e)
                                            }
                                        },
                                    }
                                },
                            }
                        },
                    }
                }
            },
            None => {
                Out::Done(p, lhs)
            },
        }
    }
}

/// Operators, one level further in.
pub open spec fn bin_inner(i: Input, p: At, d: nat, ns: bool, min: nat) -> Out<ExprTree>
    decreases i.max_nesting - d, 9int, rem(i, p), 0int,
{
    let start = i.range(p.cur);
    match p_unary(i, p, d, ns) {
        Out::Fail(f) => Out::Fail(f),
        Out::Done(p, lhs) => {
            bin_rest(i, p, d, ns, min, start, lhs)
        },
    }
}

/// A prefix expression, one level further in.
pub open spec fn unary_inner(i: Input, p: At, d: nat, ns: bool) -> Out<ExprTree>
    decreases i.max_nesting - d, 9int, rem(i, p), 0int,
{
    let start = i.range(p.cur);
    match unary_op(i.kind(p.cur)) {
        Some(op) => {
            match bump(i, p) {
                Out::Fail(f) => Out::Fail(f),
                Out::Done(p, _) => {
                    match p_unary(i, p, d, ns) {
                        Out::Fail(f) => Out::Fail(f),
                        Out::Done(p, e) => {
                            make(i, p, ExprKindTree::Unary {
                                op, expr: Box::new(e)
                            },
                            start)
                        },
                    }
                },
            }
        },
        None => {
            postfix(i, p, d, ns)
        },
    }
}

/// Arguments up to a closing token.
pub open spec fn args(i: Input, p: At, d: nat, ns: bool, close: T, done: Seq<ExprTree>) -> Out<Seq<ExprTree>>
    decreases i.max_nesting - d, 2int, rem(i, p), 0int,
{
    if i.kind(p.cur) == close {
        Out::Done(p, done)
    } else {
        let q = p;
        match p_expr(i, p, d, false) {
            Out::Fail(f) => Out::Fail(f),
            Out::Done(p, e) => {
                match accept(i, p, T::Comma) {
                    Out::Fail(f) => Out::Fail(f),
                    Out::Done(p, more) => {
                        if more && rem(i, p) < rem(i, q) {
                            args(i, p, d, ns, close, done.push(e))
                        } else {
                            Out::Done(p, done.push(e))
                        }
                    },
                }
            },
        }
    }
}

/// Arguments in parentheses.
pub open spec fn call_args(i: Input, p: At, d: nat, ns: bool) -> Out<Seq<ExprTree>>
    decreases i.max_nesting - d, 3int, rem(i, p), 0int,
{
    match expect(i, p, T::LParen) {
        Out::Fail(f) => Out::Fail(f),
        Out::Done(p, _) => {
            match args(i, p, d, ns, T::RParen, Seq::empty()) {
                Out::Fail(f) => Out::Fail(f),
                Out::Done(p, list) => {
                    match expect(i, p, T::RParen) {
                        Out::Fail(f) => Out::Fail(f),
                        Out::Done(p, _) => {
                            Out::Done(p, list)
                        },
                    }
                },
            }
        },
    }
}

/// Explicit type arguments behind `::`.
pub open spec fn turbofish(i: Input, p: At, d: nat, ns: bool) -> Out<Seq<TypeTree>>
    decreases i.max_nesting - d, 3int, rem(i, p), 0int,
{
    match accept(i, p, T::ColonColon) {
        Out::Fail(f) => Out::Fail(f),
        Out::Done(p, some) => {
            if some {
                match expect(i, p, T::Lt) {
                    Out::Fail(f) => Out::Fail(f),
                    Out::Done(p, _) => {
                        match types(i, p, d, T::Gt, Seq::empty()) {
                            Out::Fail(f) => Out::Fail(f),
                            Out::Done(p, list) => {
                                match expect(i, p, T::Gt) {
                                    Out::Fail(f) => Out::Fail(f),
                                    Out::Done(p, _) => {
                                        Out::Done(p, list)
                                    },
                                }
                            },
                        }
                    },
                }
            } else {
                Out::Done(p, Seq::empty())
            }
        },
    }
}

/// A field or a method call behind its base.
pub open spec fn member(i: Input, p: At, d: nat, ns: bool, start: SourceRange, base: ExprTree) -> Out<ExprTree>
    decreases i.max_nesting - d, 4int, rem(i, p), 0int,
{
    let optional = i.kind(p.cur) == T::QuestionDot;
    match bump(i, p) {
        Out::Fail(f) => Out::Fail(f),
        Out::Done(p, _) => {
            let member_span = i.range(p.cur);
            match ident(i, p) {
                Out::Fail(f) => Out::Fail(f),
                Out::Done(p, name) => {
                    match turbofish(i, p, d, ns) {
                        Out::Fail(f) => Out::Fail(f),
                        Out::Done(p, type_args) => {
                            if i.kind(p.cur) == T::LParen {
                                match call_args(i, p, d, ns) {
                                    Out::Fail(f) => Out::Fail(f),
                                    Out::Done(p, args) => {
                                        make(i, p, ExprKindTree::MethodCall {
                                            recv: Box::new(base),
                                            method: name,
                                            optional,
                                            type_args,
                                            args,
                                            method_span: member_span,
                                        },
                                        start)
                                    },
                                }
                            } else if type_args.len() > 0 {
                                Out::Fail(err(i, p, "method turbofish must be followed by `(...)`"@))
                            } else {
                                make(i, p, ExprKindTree::Field {
                                    base: Box::new(base),
                                    name,
                                    optional,
                                    name_span: member_span,
                                },
                                start)
                            }
                        },
                    }
                },
            }
        },
    }
}

/// One suffix behind an expression, and whether there was one.
pub open spec fn suffix(i: Input, p: At, d: nat, ns: bool, start: SourceRange, base: ExprTree) -> Out<(bool, ExprTree)>
    decreases i.max_nesting - d, 5int, rem(i, p), 0int,
{
    match i.kind(p.cur) {
        T::LParen => {
            match call_args(i, p, d, ns) {
                Out::Fail(f) => Out::Fail(f),
                Out::Done(p, args) => {
                    match make(i, p, ExprKindTree::Call {
                        callee: Box::new(base), args
                    },
                    start) {
                        Out::Fail(f) => Out::Fail(f),
                        Out::Done(p, e) => {
                            Out::Done(p, (true, e))
                        },
                    }
                },
            }
        },
        T::Dot | T::QuestionDot => {
            match member(i, p, d, ns, start, base) {
                Out::Fail(f) => Out::Fail(f),
                Out::Done(p, e) => {
                    Out::Done(p, (true, e))
                },
            }
        },
        T::Question => {
            match bump(i, p) {
                Out::Fail(f) => Out::Fail(f),
                Out::Done(p, _) => {
                    match make(i, p, ExprKindTree::Try {
                        expr: Box::new(base)
                    },
                    start) {
                        Out::Fail(f) => Out::Fail(f),
                        Out::Done(p, e) => {
                            Out::Done(p, (true, e))
                        },
                    }
                },
            }
        },
        T::LBracket => {
            match bump(i, p) {
                Out::Fail(f) => Out::Fail(f),
                Out::Done(p, _) => {
                    match p_expr(i, p, d, false) {
                        Out::Fail(f) => Out::Fail(f),
                        Out::Done(p, index) => {
                            match expect(i, p, T::RBracket) {
                                Out::Fail(f) => Out::Fail(f),
                                Out::Done(p, _) => {
                                    match make(i, p, ExprKindTree::Index {
                                        base: Box::new(base), index: Box::new(index)
                                    },
                                    start) {
                                        Out::Fail(f) => Out::Fail(f),
                                        Out::Done(p, e) => {
                                            Out::Done(p, (true, e))
                                        },
                                    }
                                },
                            }
                        },
                    }
                },
            }
        },
        _ => {
            Out::Done(p, (false, base))
        },
    }
}

/// All suffixes behind an expression.
pub open spec fn suffixes(i: Input, p: At, d: nat, ns: bool, start: SourceRange, base: ExprTree) -> Out<ExprTree>
    decreases i.max_nesting - d, 6int, rem(i, p), 0int,
{
    let q = p;
    match suffix(i, p, d, ns, start, base) {
        Out::Fail(f) => Out::Fail(f),
        Out::Done(p, longer) => {
            if longer.0 && rem(i, p) < rem(i, q) {
                suffixes(i, p, d, ns, start, longer.1)
            } else {
                Out::Done(p, longer.1)
            }
        },
    }
}

/// A primary expression with its suffixes.
pub open spec fn postfix(i: Input, p: At, d: nat, ns: bool) -> Out<ExprTree>
    decreases i.max_nesting - d, 8int, rem(i, p), 0int,
{
    let start = i.range(p.cur);
    match primary(i, p, d, ns) {
        Out::Fail(f) => Out::Fail(f),
        Out::Done(p, e) => {
            suffixes(i, p, d, ns, start, e)
        },
    }
}

/// A literal token.
pub open spec fn literal(i: Input, p: At, d: nat, ns: bool, start: SourceRange) -> Out<ExprTree>
    decreases i.max_nesting - d, 1int, rem(i, p), 0int,
{
    let text = i.text(p.cur);
    let kind = i.kind(p.cur);
    match bump(i, p) {
        Out::Fail(f) => Out::Fail(f),
        Out::Done(p, _) => {
            make(i, p, literal_kind(kind, text), start)
        },
    }
}

/// A path, a struct literal or a macro call.
pub open spec fn named(i: Input, p: At, d: nat, ns: bool, start: SourceRange) -> Out<ExprTree>
    decreases i.max_nesting - d, 6int, rem(i, p), 0int,
{
    if i.kind(p.cur) == T::Ident && i.kind(behind(i.stream.tokens@.len() as int, p.cur)) == T::Not {
        macro_call(i, p, d, ns)
    } else {
        match ident(i, p) {
            Out::Fail(f) => Out::Fail(f),
            Out::Done(p, first) => {
                match segments(i, p, seq![first]) {
                    Out::Fail(f) => Out::Fail(f),
                    Out::Done(p, path) => {
                        if !ns && i.kind(p.cur) == T::LBrace {
                            match expect(i, p, T::LBrace) {
                                Out::Fail(f) => Out::Fail(f),
                                Out::Done(p, _) => {
                                    match field_values(i, p, d, ns, Seq::empty()) {
                                        Out::Fail(f) => Out::Fail(f),
                                        Out::Done(p, fields) => {
                                            match expect(i, p, T::RBrace) {
                                                Out::Fail(f) => Out::Fail(f),
                                                Out::Done(p, _) => {
                                                    make(i, p, ExprKindTree::StructLit {
                                                        path, fields
                                                    },
                                                    start)
                                                },
                                            }
                                        },
                                    }
                                },
                            }
                        } else {
                            make(i, p, ExprKindTree::Path(path), start)
                        }
                    },
                }
            },
        }
    }
}

/// A loop, a grouped expression or a block.
pub open spec fn enclosed(i: Input, p: At, d: nat, ns: bool, start: SourceRange) -> Out<ExprTree>
    decreases i.max_nesting - d, 4int, rem(i, p), 0int,
{
    if i.kind(p.cur) == T::KwLoop {
        match bump(i, p) {
            Out::Fail(f) => Out::Fail(f),
            Out::Done(p, _) => {
                match p_block(i, p, d, ns) {
                    Out::Fail(f) => Out::Fail(f),
                    Out::Done(p, body) => {
                        make(i, p, ExprKindTree::Loop(body), start)
                    },
                }
            },
        }
    } else if i.kind(p.cur) == T::LParen {
        match bump(i, p) {
            Out::Fail(f) => Out::Fail(f),
            Out::Done(p, _) => {
                match p_expr(i, p, d, false) {
                    Out::Fail(f) => Out::Fail(f),
                    Out::Done(p, e) => {
                        match expect(i, p, T::RParen) {
                            Out::Fail(f) => Out::Fail(f),
                            Out::Done(p, _) => {
                                Out::Done(p, e)
                            },
                        }
                    },
                }
            },
        }
    } else {
        match p_block(i, p, d, ns) {
            Out::Fail(f) => Out::Fail(f),
            Out::Done(p, block) => {
                make(i, p, ExprKindTree::Block(block), start)
            },
        }
    }
}

/// A primary expression that starts with a keyword or a bracket of its own.
pub open spec fn branching(i: Input, p: At, d: nat, ns: bool, start: SourceRange) -> Out<ExprTree>
    decreases i.max_nesting - d, 6int, rem(i, p), 0int,
{
    match i.kind(p.cur) {
        T::Hash => {
            map_literal(i, p, d, ns, start)
        },
        T::KwLoop | T::LParen | T::LBrace => {
            enclosed(i, p, d, ns, start)
        },
        T::KwIf => {
            if_expr(i, p, d, ns)
        },
        T::KwMatch => {
            match_expr(i, p, d, ns)
        },
        other => {
            Out::Fail(err(i, p, "expected expression, found `"@ + other.spec_user_string() + "`"@))
        },
    }
}

/// A primary expression.
pub open spec fn primary(i: Input, p: At, d: nat, ns: bool) -> Out<ExprTree>
    decreases i.max_nesting - d, 7int, rem(i, p), 0int,
{
    let start = i.range(p.cur);
    match i.kind(p.cur) {
        T::Pipe | T::OrOr => {
            closure(i, p, d, ns)
        },
        T::Int | T::Float | T::Str | T::KwTrue | T::KwFalse => {
            literal(i, p, d, ns, start)
        },
        T::Ident | T::KwSelf => {
            named(i, p, d, ns, start)
        },
        _ => {
            branching(i, p, d, ns, start)
        },
    }
}

/// The parameters of a closure up to its closing bar.
pub open spec fn closure_params(i: Input, p: At, d: nat, ns: bool, done: Seq<ClosureParamTree>) -> Out<Seq<ClosureParamTree>>
    decreases i.max_nesting - d, 4int, rem(i, p), 0int,
{
    if i.kind(p.cur) == T::Pipe || i.kind(p.cur) == T::Eof {
        Out::Done(p, done)
    } else {
        let q = p;
        let name_span = i.range(p.cur);
        match ident(i, p) {
            Out::Fail(f) => Out::Fail(f),
            Out::Done(p, name) => {
                match optional_type(i, p, d, T::Colon) {
                    Out::Fail(f) => Out::Fail(f),
                    Out::Done(p, ty) => {
                        let done = done.push(ClosureParamTree {
                            name, name_span, ty
                        });
                        match accept(i, p, T::Comma) {
                            Out::Fail(f) => Out::Fail(f),
                            Out::Done(p, more) => {
                                if more && rem(i, p) < rem(i, q) {
                                    closure_params(i, p, d, ns, done)
                                } else {
                                    Out::Done(p, done)
                                }
                            },
                        }
                    },
                }
            },
        }
    }
}

/// The bars of a closure with its parameters.
pub open spec fn closure_head(i: Input, p: At, d: nat, ns: bool) -> Out<Seq<ClosureParamTree>>
    decreases i.max_nesting - d, 5int, rem(i, p), 0int,
{
    if i.kind(p.cur) == T::OrOr {
        match bump(i, p) {
            Out::Fail(f) => Out::Fail(f),
            Out::Done(p, _) => {
                Out::Done(p, Seq::empty())
            },
        }
    } else {
        match expect(i, p, T::Pipe) {
            Out::Fail(f) => Out::Fail(f),
            Out::Done(p, _) => {
                match closure_params(i, p, d, ns, Seq::empty()) {
                    Out::Fail(f) => Out::Fail(f),
                    Out::Done(p, params) => {
                        match expect(i, p, T::Pipe) {
                            Out::Fail(f) => Out::Fail(f),
                            Out::Done(p, _) => {
                                Out::Done(p, params)
                            },
                        }
                    },
                }
            },
        }
    }
}

/// A closure.
pub open spec fn closure(i: Input, p: At, d: nat, ns: bool) -> Out<ExprTree>
    decreases i.max_nesting - d, 6int, rem(i, p), 0int,
{
    let start = i.range(p.cur);
    match closure_head(i, p, d, ns) {
        Out::Fail(f) => Out::Fail(f),
        Out::Done(p, params) => {
            match optional_type(i, p, d, T::Arrow) {
                Out::Fail(f) => Out::Fail(f),
                Out::Done(p, ret) => {
                    if i.kind(p.cur) == T::LBrace {
                        match p_block(i, p, d, ns) {
                            Out::Fail(f) => Out::Fail(f),
                            Out::Done(p, block) => {
                                make(i, p, ExprKindTree::Closure {
                                    params, ret, body: ClosureBodyTree::Block(block)
                                },
                                start)
                            },
                        }
                    } else {
                        match p_expr(i, p, d, false) {
                            Out::Fail(f) => Out::Fail(f),
                            Out::Done(p, e) => {
                                make(i, p, ExprKindTree::Closure {
                                    params, ret, body: ClosureBodyTree::Expr(Box::new(e))
                                },
                                start)
                            },
                        }
                    }
                },
            }
        },
    }
}

/// The entries of a map up to its closing brace.
pub open spec fn map_entries(i: Input, p: At, d: nat, ns: bool, done: Seq<(ExprTree, ExprTree)>) -> Out<Seq<(ExprTree, ExprTree)>>
    decreases i.max_nesting - d, 2int, rem(i, p), 0int,
{
    if i.kind(p.cur) == T::RBrace {
        Out::Done(p, done)
    } else {
        let q = p;
        match p_expr(i, p, d, false) {
            Out::Fail(f) => Out::Fail(f),
            Out::Done(p, key) => {
                match expect(i, p, T::Colon) {
                    Out::Fail(f) => Out::Fail(f),
                    Out::Done(p, _) => {
                        match p_expr(i, p, d, false) {
                            Out::Fail(f) => Out::Fail(f),
                            Out::Done(p, value) => {
                                let done = done.push((key, value));
                                match accept(i, p, T::Comma) {
                                    Out::Fail(f) => Out::Fail(f),
                                    Out::Done(p, more) => {
                                        if more && rem(i, p) < rem(i, q) {
                                            map_entries(i, p, d, ns, done)
                                        } else {
                                            Out::Done(p, done)
                                        }
                                    },
                                }
                            },
                        }
                    },
                }
            },
        }
    }
}

/// A map literal.
pub open spec fn map_literal(i: Input, p: At, d: nat, ns: bool, start: SourceRange) -> Out<ExprTree>
    decreases i.max_nesting - d, 3int, rem(i, p), 0int,
{
    match expect(i, p, T::Hash) {
        Out::Fail(f) => Out::Fail(f),
        Out::Done(p, _) => {
            match expect(i, p, T::LBrace) {
                Out::Fail(f) => Out::Fail(f),
                Out::Done(p, _) => {
                    match map_entries(i, p, d, ns, Seq::empty()) {
                        Out::Fail(f) => Out::Fail(f),
                        Out::Done(p, entries) => {
                            match expect(i, p, T::RBrace) {
                                Out::Fail(f) => Out::Fail(f),
                                Out::Done(p, _) => {
                                    make(i, p, ExprKindTree::MapLit(entries), start)
                                },
                            }
                        },
                    }
                },
            }
        },
    }
}

/// A macro call; `vec![..]` is a list literal.
pub open spec fn macro_call(i: Input, p: At, d: nat, ns: bool) -> Out<ExprTree>
    decreases i.max_nesting - d, 3int, rem(i, p), 0int,
{
    let start = i.range(p.cur);
    match ident(i, p) {
        Out::Fail(f) => Out::Fail(f),
        Out::Done(p, name) => {
            match expect(i, p, T::Not) {
                Out::Fail(f) => Out::Fail(f),
                Out::Done(p, _) => {
                    if i.kind(p.cur) != T::LParen && i.kind(p.cur) != T::LBracket {
                        Out::Fail(err(i, p, "expected `(` or `[` after `"@ + name + "!`, found `"@ + i.kind(p.cur).spec_user_string() + "`"@))
                    } else {
                        let close = if i.kind(p.cur) == T::LParen {
                            T::RParen
                        } else {
                            T::RBracket
                        };
                        match bump(i, p) {
                            Out::Fail(f) => Out::Fail(f),
                            Out::Done(p, _) => {
                                match args(i, p, d, ns, close, Seq::empty()) {
                                    Out::Fail(f) => Out::Fail(f),
                                    Out::Done(p, list) => {
                                        match expect(i, p, close) {
                                            Out::Fail(f) => Out::Fail(f),
                                            Out::Done(p, _) => {
                                                make(i, p, if name == "vec"@ {
                                                    ExprKindTree::VecLit(list)
                                                } else {
                                                    ExprKindTree::MacroCall { name, args: list }
                                                }, start)
                                            },
                                        }
                                    },
                                }
                            },
                        }
                    }
                },
            }
        },
    }
}

/// The fields of a struct literal up to its closing brace.
pub open spec fn field_values(i: Input, p: At, d: nat, ns: bool, done: Seq<(Seq<char>, ExprTree)>) -> Out<Seq<(Seq<char>, ExprTree)>>
    decreases i.max_nesting - d, 2int, rem(i, p), 0int,
{
    if i.kind(p.cur) == T::RBrace {
        Out::Done(p, done)
    } else {
        let q = p;
        let start = i.range(p.cur);
        match ident(i, p) {
            Out::Fail(f) => Out::Fail(f),
            Out::Done(p, name) => {
                match accept(i, p, T::Colon) {
                    Out::Fail(f) => Out::Fail(f),
                    Out::Done(p, given) => {
                        match (if given {
                            p_expr(i, p, d, false)
                        } else {
                            make(i, p, ExprKindTree::Path(seq![name]), start)
                        }) {
                            Out::Fail(f) => Out::Fail(f),
                            Out::Done(p, value) => {
                                let done = done.push((name, value));
                                match accept(i, p, T::Comma) {
                                    Out::Fail(f) => Out::Fail(f),
                                    Out::Done(p, more) => {
                                        if more && rem(i, p) < rem(i, q) {
                                            field_values(i, p, d, ns, done)
                                        } else {
                                            Out::Done(p, done)
                                        }
                                    },
                                }
                            },
                        }
                    },
                }
            },
        }
    }
}

/// An `if`.
pub open spec fn if_expr(i: Input, p: At, d: nat, ns: bool) -> Out<ExprTree>
    decreases i.max_nesting - d, 5int, rem(i, p), 2int,
{
    let q = p;
    let start = i.range(p.cur);
    match expect(i, p, T::KwIf) {
        Out::Fail(f) => Out::Fail(f),
        Out::Done(p, _) => {
            if i.kind(p.cur) == T::KwLet {
                match expect(i, p, T::KwLet) {
                    Out::Fail(f) => Out::Fail(f),
                    Out::Done(p, _) => {
                        match p_pattern(i, p, d, ns) {
                            Out::Fail(f) => Out::Fail(f),
                            Out::Done(p, pat) => {
                                match expect(i, p, T::Eq) {
                                    Out::Fail(f) => Out::Fail(f),
                                    Out::Done(p, _) => {
                                        match p_expr(i, p, d, true) {
                                            Out::Fail(f) => Out::Fail(f),
                                            Out::Done(p, expr) => {
                                                match p_block(i, p, d, ns) {
                                                    Out::Fail(f) => Out::Fail(f),
                                                    Out::Done(p, then_block) => {
                                                        match (if rem(i, p) < rem(i, q) {
                                                            else_branch(i, p, d, ns)
                                                        } else {
                                                            Out::Done(p, None)
                                                        }) {
                                                            Out::Fail(f) => Out::Fail(f),
                                                            Out::Done(p, else_block) => {
                                                                make(i, p, ExprKindTree::IfLet {
                                                                    pat: Box::new(pat),
                                                                    expr: Box::new(expr),
                                                                    then_block,
                                                                    else_block,
                                                                },
                                                                start)
                                                            },
                                                        }
                                                    },
                                                }
                                            },
                                        }
                                    },
                                }
                            },
                        }
                    },
                }
            } else {
                match p_expr(i, p, d, true) {
                    Out::Fail(f) => Out::Fail(f),
                    Out::Done(p, cond) => {
                        match p_block(i, p, d, ns) {
                            Out::Fail(f) => Out::Fail(f),
                            Out::Done(p, then_block) => {
                                match (if rem(i, p) < rem(i, q) {
                                    else_branch(i, p, d, ns)
                                } else {
                                    Out::Done(p, None)
                                }) {
                                    Out::Fail(f) => Out::Fail(f),
                                    Out::Done(p, else_block) => {
                                        make(i, p, ExprKindTree::If {
                                            cond: Box::new(cond), then_block, else_block
                                        },
                                        start)
                                    },
                                }
                            },
                        }
                    },
                }
            }
        },
    }
}

/// An optional `else`.
pub open spec fn else_branch(i: Input, p: At, d: nat, ns: bool) -> Out<Option<Box<ElseBranchTree>>>
    decreases i.max_nesting - d, 5int, rem(i, p), 1int,
{
    if i.kind(p.cur) == T::KwElse {
        let q = p;
        match bump(i, p) {
            Out::Fail(f) => Out::Fail(f),
            Out::Done(p, _) => {
                if i.kind(p.cur) == T::KwIf && rem(i, p) < rem(i, q) {
                    match if_expr(i, p, d, ns) {
                        Out::Fail(f) => Out::Fail(f),
                        Out::Done(p, e) => {
                            Out::Done(p, Some(Box::new(ElseBranchTree::If(e))))
                        },
                    }
                } else {
                    match p_block(i, p, d, ns) {
                        Out::Fail(f) => Out::Fail(f),
                        Out::Done(p, block) => {
                            Out::Done(p, Some(Box::new(ElseBranchTree::Block(block))))
                        },
                    }
                }
            },
        }
    } else {
        Out::Done(p, None)
    }
}

/// Alternatives behind a first pattern.
pub open spec fn more_patterns(i: Input, p: At, d: nat, ns: bool, done: Seq<PatternTree>) -> Out<Seq<PatternTree>>
    decreases i.max_nesting - d, 2int, rem(i, p), 0int,
{
    if i.kind(p.cur) == T::Pipe {
        let q = p;
        match bump(i, p) {
            Out::Fail(f) => Out::Fail(f),
            Out::Done(p, _) => {
                match p_pattern(i, p, d, ns) {
                    Out::Fail(f) => Out::Fail(f),
                    Out::Done(p, pat) => {
                        if rem(i, p) < rem(i, q) {
                            more_patterns(i, p, d, ns, done.push(pat))
                        } else {
                            Out::Done(p, done)
                        }
                    },
                }
            },
        }
    } else {
        Out::Done(p, done)
    }
}

/// One arm.
pub open spec fn arm(i: Input, p: At, d: nat, ns: bool) -> Out<MatchArmTree>
    decreases i.max_nesting - d, 3int, rem(i, p), 0int,
{
    match p_pattern(i, p, d, ns) {
        Out::Fail(f) => Out::Fail(f),
        Out::Done(p, first) => {
            match more_patterns(i, p, d, ns, seq![first]) {
                Out::Fail(f) => Out::Fail(f),
                Out::Done(p, pats) => {
                    match accept(i, p, T::KwIf) {
                        Out::Fail(f) => Out::Fail(f),
                        Out::Done(p, guarded) => {
                            if guarded {
                                match p_expr(i, p, d, true) {
                                    Out::Fail(f) => Out::Fail(f),
                                    Out::Done(p, guard) => {
                                        match expect(i, p, T::FatArrow) {
                                            Out::Fail(f) => Out::Fail(f),
                                            Out::Done(p, _) => {
                                                match p_expr(i, p, d, false) {
                                                    Out::Fail(f) => Out::Fail(f),
                                                    Out::Done(p, body) => {
                                                        match accept(i, p, T::Comma) {
                                                            Out::Fail(f) => Out::Fail(f),
                                                            Out::Done(p, _) => {
                                                                Out::Done(p, MatchArmTree {
                                                                    pats,
                                                                    guard: Some(guard),
                                                                    body,
                                                                })
                                                            },
                                                        }
                                                    },
                                                }
                                            },
                                        }
                                    },
                                }
                            } else {
                                match expect(i, p, T::FatArrow) {
                                    Out::Fail(f) => Out::Fail(f),
                                    Out::Done(p, _) => {
                                        match p_expr(i, p, d, false) {
                                            Out::Fail(f) => Out::Fail(f),
                                            Out::Done(p, body) => {
                                                match accept(i, p, T::Comma) {
                                                    Out::Fail(f) => Out::Fail(f),
                                                    Out::Done(p, _) => {
                                                        Out::Done(p, MatchArmTree {
                                                            pats, guard: None, body
                                                        })
                                                    },
                                                }
                                            },
                                        }
                                    },
                                }
                            }
                        },
                    }
                },
            }
        },
    }
}

/// The arms of a `match` up to its closing brace.
pub open spec fn arms(i: Input, p: At, d: nat, ns: bool, done: Seq<MatchArmTree>) -> Out<Seq<MatchArmTree>>
    decreases i.max_nesting - d, 4int, rem(i, p), 0int,
{
    if i.kind(p.cur) == T::RBrace || i.kind(p.cur) == T::Eof {
        Out::Done(p, done)
    } else {
        let q = p;
        match arm(i, p, d, ns) {
            Out::Fail(f) => Out::Fail(f),
            Out::Done(p, one) => {
                if rem(i, p) < rem(i, q) {
                    arms(i, p, d, ns, done.push(one))
                } else {
                    Out::Done(p, done)
                }
            },
        }
    }
}

/// A `match`.
pub open spec fn match_expr(i: Input, p: At, d: nat, ns: bool) -> Out<ExprTree>
    decreases i.max_nesting - d, 5int, rem(i, p), 0int,
{
    let start = i.range(p.cur);
    match expect(i, p, T::KwMatch) {
        Out::Fail(f) => Out::Fail(f),
        Out::Done(p, _) => {
            match p_expr(i, p, d, true) {
                Out::Fail(f) => Out::Fail(f),
                Out::Done(p, scrut) => {
                    match expect(i, p, T::LBrace) {
                        Out::Fail(f) => Out::Fail(f),
                        Out::Done(p, _) => {
                            match arms(i, p, d, ns, Seq::empty()) {
                                Out::Fail(f) => Out::Fail(f),
                                Out::Done(p, list) => {
                                    match expect(i, p, T::RBrace) {
                                        Out::Fail(f) => Out::Fail(f),
                                        Out::Done(p, _) => {
                                            make(i, p, ExprKindTree::Match {
                                                scrut: Box::new(scrut), arms: list
                                            },
                                            start)
                                        },
                                    }
                                },
                            }
                        },
                    }
                },
            }
        },
    }
}

/// The elements of a tuple pattern up to its closing parenthesis.
pub open spec fn pattern_elems(i: Input, p: At, d: nat, ns: bool, done: Seq<PatternTree>) -> Out<Seq<PatternTree>>
    decreases i.max_nesting - d, 2int, rem(i, p), 0int,
{
    if i.kind(p.cur) == T::RParen {
        Out::Done(p, done)
    } else {
        let q = p;
        match p_pattern(i, p, d, ns) {
            Out::Fail(f) => Out::Fail(f),
            Out::Done(p, pat) => {
                match accept(i, p, T::Comma) {
                    Out::Fail(f) => Out::Fail(f),
                    Out::Done(p, more) => {
                        if more && rem(i, p) < rem(i, q) {
                            pattern_elems(i, p, d, ns, done.push(pat))
                        } else {
                            Out::Done(p, done.push(pat))
                        }
                    },
                }
            },
        }
    }
}

/// The fields of a struct pattern, and whether `..` stands for the others.
pub open spec fn pattern_fields(i: Input, p: At, d: nat, ns: bool, done: Seq<(Seq<char>, PatternTree)>) -> Out<(Seq<(Seq<char>, PatternTree)>, bool)>
    decreases i.max_nesting - d, 2int, rem(i, p), 0int,
{
    if i.kind(p.cur) == T::RBrace {
        Out::Done(p, (done, false))
    } else if i.kind(p.cur) == T::DotDot {
        match bump(i, p) {
            Out::Fail(f) => Out::Fail(f),
            Out::Done(p, _) => {
                Out::Done(p, (done, true))
            },
        }
    } else {
        let q = p;
        let span = i.range(p.cur);
        match ident(i, p) {
            Out::Fail(f) => Out::Fail(f),
            Out::Done(p, name) => {
                match accept(i, p, T::Colon) {
                    Out::Fail(f) => Out::Fail(f),
                    Out::Done(p, given) => {
                        match (if given {
                            p_pattern(i, p, d, ns)
                        } else {
                            Out::Done(p, PatternTree::Binding(name, span))
                        }) {
                            Out::Fail(f) => Out::Fail(f),
                            Out::Done(p, pat) => {
                                let done = done.push((name, pat));
                                match accept(i, p, T::Comma) {
                                    Out::Fail(f) => Out::Fail(f),
                                    Out::Done(p, more) => {
                                        if more && rem(i, p) < rem(i, q) {
                                            pattern_fields(i, p, d, ns, done)
                                        } else {
                                            Out::Done(p, (done, false))
                                        }
                                    },
                                }
                            },
                        }
                    },
                }
            },
        }
    }
}

/// A literal pattern or a range of literals.
pub open spec fn range_pattern(i: Input, p: At, d: nat, ns: bool) -> Out<PatternTree>
    decreases i.max_nesting - d, 4int, rem(i, p), 0int,
{
    match pattern_literal(i, p, d, ns) {
        Out::Fail(f) => Out::Fail(f),
        Out::Done(p, lo) => {
            if i.kind(p.cur) == T::DotDotEq || i.kind(p.cur) == T::DotDot {
                let inclusive = i.kind(p.cur) == T::DotDotEq;
                match bump(i, p) {
                    Out::Fail(f) => Out::Fail(f),
                    Out::Done(p, _) => {
                        match pattern_literal(i, p, d, ns) {
                            Out::Fail(f) => Out::Fail(f),
                            Out::Done(p, hi) => {
                                Out::Done(p, PatternTree::Range {
                                    lo: Box::new(lo), hi: Box::new(hi), inclusive
                                })
                            },
                        }
                    },
                }
            } else {
                Out::Done(p, PatternTree::Literal(lo))
            }
        },
    }
}

/// A binding, a path or a variant pattern.
pub open spec fn path_pattern(i: Input, p: At, d: nat, ns: bool) -> Out<PatternTree>
    decreases i.max_nesting - d, 4int, rem(i, p), 0int,
{
    let span = i.range(p.cur);
    match ident(i, p) {
        Out::Fail(f) => Out::Fail(f),
        Out::Done(p, first) => {
            match segments(i, p, seq![first]) {
                Out::Fail(f) => Out::Fail(f),
                Out::Done(p, path) => {
                    if i.kind(p.cur) == T::LParen {
                        match bump(i, p) {
                            Out::Fail(f) => Out::Fail(f),
                            Out::Done(p, _) => {
                                match pattern_elems(i, p, d, ns, Seq::empty()) {
                                    Out::Fail(f) => Out::Fail(f),
                                    Out::Done(p, elems) => {
                                        match expect(i, p, T::RParen) {
                                            Out::Fail(f) => Out::Fail(f),
                                            Out::Done(p, _) => {
                                                match pattern_id(i, p) {
                                                    Out::Fail(f) => Out::Fail(f),
                                                    Out::Done(p, id) => {
                                                        Out::Done(p, PatternTree::TupleVariant {
                                                            id, path, elems
                                                        })
                                                    },
                                                }
                                            },
                                        }
                                    },
                                }
                            },
                        }
                    } else if i.kind(p.cur) == T::LBrace {
                        match bump(i, p) {
                            Out::Fail(f) => Out::Fail(f),
                            Out::Done(p, _) => {
                                match pattern_fields(i, p, d, ns, Seq::empty()) {
                                    Out::Fail(f) => Out::Fail(f),
                                    Out::Done(p, fields) => {
                                        match expect(i, p, T::RBrace) {
                                            Out::Fail(f) => Out::Fail(f),
                                            Out::Done(p, _) => {
                                                match pattern_id(i, p) {
                                                    Out::Fail(f) => Out::Fail(f),
                                                    Out::Done(p, id) => {
                                                        Out::Done(p, PatternTree::StructVariant {
                                                            id,
                                                            path,
                                                            fields: fields.0,
                                                            rest: fields.1,
                                                        })
                                                    },
                                                }
                                            },
                                        }
                                    },
                                }
                            },
                        }
                    } else if path.len() == 1 && is_binding_name(first) {
                        Out::Done(p, PatternTree::Binding(first, span))
                    } else {
                        match pattern_id(i, p) {
                            Out::Fail(f) => Out::Fail(f),
                            Out::Done(p, id) => {
                                Out::Done(p, PatternTree::Path {
                                    id, path
                                })
                            },
                        }
                    }
                },
            }
        },
    }
}

/// A pattern, one level further in.
pub open spec fn pattern_inner(i: Input, p: At, d: nat, ns: bool) -> Out<PatternTree>
    decreases i.max_nesting - d, 9int, rem(i, p), 0int,
{
    match i.kind(p.cur) {
        T::Int | T::Float | T::Str | T::KwTrue | T::KwFalse | T::Minus => {
            range_pattern(i, p, d, ns)
        },
        T::Ident | T::KwSelf => {
            if i.text(p.cur) == "_"@ {
                match bump(i, p) {
                    Out::Fail(f) => Out::Fail(f),
                    Out::Done(p, _) => {
                        Out::Done(p, PatternTree::Wildcard)
                    },
                }
            } else {
                path_pattern(i, p, d, ns)
            }
        },
        other => {
            Out::Fail(err(i, p, "expected pattern, found `"@ + other.spec_user_string() + "`"@))
        },
    }
}

/// A literal in a pattern, one level further in.
pub open spec fn literal_inner(i: Input, p: At, d: nat, ns: bool) -> Out<ExprTree>
    decreases i.max_nesting - d, 9int, rem(i, p), 0int,
{
    let start = i.range(p.cur);
    match i.kind(p.cur) {
        T::Minus => {
            match bump(i, p) {
                Out::Fail(f) => Out::Fail(f),
                Out::Done(p, _) => {
                    match pattern_literal(i, p, d, ns) {
                        Out::Fail(f) => Out::Fail(f),
                        Out::Done(p, inner) => {
                            make(i, p, ExprKindTree::Unary {
                                op: UnOp::Neg, expr: Box::new(inner)
                            },
                            start)
                        },
                    }
                },
            }
        },
        T::Int | T::Float | T::Str | T::KwTrue | T::KwFalse => {
            literal(i, p, d, ns, start)
        },
        other => {
            Out::Fail(err(i, p, "expected literal in pattern, found `"@ + other.spec_user_string() + "`"@))
        },
    }
}

/// Parameters up to the closing parenthesis.
#[verifier::opaque]
pub open spec fn param_list(i: Input, p: At, d: nat, ns: bool, done: Seq<ParamTree>) -> Out<Seq<ParamTree>>
    decreases rem(i, p),
{
    if i.kind(p.cur) == T::RParen {
        Out::Done(p, done)
    } else {
        let q = p;
        let name_span = i.range(p.cur);
        match ident(i, p) {
            Out::Fail(f) => Out::Fail(f),
            Out::Done(p, name) => {
                match expect(i, p, T::Colon) {
                    Out::Fail(f) => Out::Fail(f),
                    Out::Done(p, _) => {
                        match p_type(i, p, d) {
                            Out::Fail(f) => Out::Fail(f),
                            Out::Done(p, ty) => {
                                let done = done.push(ParamTree {
                                    name, name_span, ty
                                });
                                match accept(i, p, T::Comma) {
                                    Out::Fail(f) => Out::Fail(f),
                                    Out::Done(p, more) => {
                                        if more && rem(i, p) < rem(i, q) {
                                            param_list(i, p, d, ns, done)
                                        } else {
                                            Out::Done(p, done)
                                        }
                                    },
                                }
                            },
                        }
                    },
                }
            },
        }
    }
}

/// An optional receiver: whether there is one, and whether it is `&mut self`.
#[verifier::opaque]
pub open spec fn receiver(i: Input, p: At, d: nat, ns: bool) -> Out<(bool, bool)>
{
    if i.kind(p.cur) == T::Amp {
        match bump(i, p) {
            Out::Fail(f) => Out::Fail(f),
            Out::Done(p, _) => {
                match accept(i, p, T::KwMut) {
                    Out::Fail(f) => Out::Fail(f),
                    Out::Done(p, mutable) => {
                        match expect(i, p, T::KwSelf) {
                            Out::Fail(f) => Out::Fail(f),
                            Out::Done(p, _) => {
                                match accept(i, p, T::Comma) {
                                    Out::Fail(f) => Out::Fail(f),
                                    Out::Done(p, _) => {
                                        Out::Done(p, (true, mutable))
                                    },
                                }
                            },
                        }
                    },
                }
            },
        }
    } else if i.kind(p.cur) == T::KwSelf {
        match bump(i, p) {
            Out::Fail(f) => Out::Fail(f),
            Out::Done(p, _) => {
                match accept(i, p, T::Comma) {
                    Out::Fail(f) => Out::Fail(f),
                    Out::Done(p, _) => {
                        Out::Done(p, (true, false))
                    },
                }
            },
        }
    } else {
        Out::Done(p, (false, false))
    }
}

/// A function header.
#[verifier::opaque]
pub open spec fn signature(i: Input, p: At, d: nat, ns: bool) -> Out<SigTree>
{
    match expect(i, p, T::KwFn) {
        Out::Fail(f) => Out::Fail(f),
        Out::Done(p, _) => {
            let name_span = i.range(p.cur);
            match ident(i, p) {
                Out::Fail(f) => Out::Fail(f),
                Out::Done(p, name) => {
                    match generics(i, p) {
                        Out::Fail(f) => Out::Fail(f),
                        Out::Done(p, list) => {
                            match expect(i, p, T::LParen) {
                                Out::Fail(f) => Out::Fail(f),
                                Out::Done(p, _) => {
                                    match receiver(i, p, d, ns) {
                                        Out::Fail(f) => Out::Fail(f),
                                        Out::Done(p, own) => {
                                            match param_list(i, p, d, ns, Seq::empty()) {
                                                Out::Fail(f) => Out::Fail(f),
                                                Out::Done(p, params) => {
                                                    match expect(i, p, T::RParen) {
                                                        Out::Fail(f) => Out::Fail(f),
                                                        Out::Done(p, _) => {
                                                            match optional_type(i, p, d, T::Arrow) {
                                                                Out::Fail(f) => Out::Fail(f),
                                                                Out::Done(p, ret) => {
                                                                    match where_clause(i, p, list) {
                                                                        Out::Fail(f) => Out::Fail(f),
                                                                        Out::Done(p, generics) => {
                                                                            Out::Done(p, SigTree {
                                                                                name,
                                                                                name_span,
                                                                                generics,
                                                                                has_self: own.0,
                                                                                receiver_mutable: own.1,
                                                                                params,
                                                                                ret,
                                                                            })
                                                                        },
                                                                    }
                                                                },
                                                            }
                                                        },
                                                    }
                                                },
                                            }
                                        },
                                    }
                                },
                            }
                        },
                    }
                },
            }
        },
    }
}

/// A function.
#[verifier::opaque]
pub open spec fn function(i: Input, p: At, d: nat, ns: bool) -> Out<FnDeclTree>
{
    match signature(i, p, d, ns) {
        Out::Fail(f) => Out::Fail(f),
        Out::Done(p, sig) => {
            match p_block(i, p, d, ns) {
                Out::Fail(f) => Out::Fail(f),
                Out::Done(p, body) => {
                    Out::Done(p, FnDeclTree {
                        name: sig.name,
                        attributes: Seq::empty(),
                        documentation: None,
                        name_span: sig.name_span,
                        generics: sig.generics,
                        is_pub: false,
                        has_self: sig.has_self,
                        receiver_mutable: sig.receiver_mutable,
                        params: sig.params,
                        ret: sig.ret,
                        body,
                    })
                },
            }
        },
    }
}

/// Parameters of a host function, and whether `...` ends them.
#[verifier::opaque]
pub open spec fn host_params(i: Input, p: At, d: nat, ns: bool, done: Seq<ParamTree>) -> Out<(Seq<ParamTree>, bool)>
    decreases rem(i, p),
{
    if i.kind(p.cur) == T::RParen {
        Out::Done(p, (done, false))
    } else if i.kind(p.cur) == T::DotDot {
        match bump(i, p) {
            Out::Fail(f) => Out::Fail(f),
            Out::Done(p, _) => {
                match accept(i, p, T::Dot) {
                    Out::Fail(f) => Out::Fail(f),
                    Out::Done(p, _) => {
                        Out::Done(p, (done, true))
                    },
                }
            },
        }
    } else {
        let q = p;
        let name_span = i.range(p.cur);
        match ident(i, p) {
            Out::Fail(f) => Out::Fail(f),
            Out::Done(p, name) => {
                match expect(i, p, T::Colon) {
                    Out::Fail(f) => Out::Fail(f),
                    Out::Done(p, _) => {
                        match p_type(i, p, d) {
                            Out::Fail(f) => Out::Fail(f),
                            Out::Done(p, ty) => {
                                let done = done.push(ParamTree {
                                    name, name_span, ty
                                });
                                match accept(i, p, T::Comma) {
                                    Out::Fail(f) => Out::Fail(f),
                                    Out::Done(p, more) => {
                                        if more && rem(i, p) < rem(i, q) {
                                            host_params(i, p, d, ns, done)
                                        } else {
                                            Out::Done(p, (done, false))
                                        }
                                    },
                                }
                            },
                        }
                    },
                }
            },
        }
    }
}

/// A host function.
#[verifier::opaque]
pub open spec fn host_function(i: Input, p: At, d: nat, ns: bool) -> Out<ExternFnTree>
{
    let documentation = leading_documentation(i.trivia(p.cur), false);
    match attributes(i, p, d, Seq::empty()) {
        Out::Fail(f) => Out::Fail(f),
        Out::Done(p, marks) => {
            match accept(i, p, T::KwPub) {
                Out::Fail(f) => Out::Fail(f),
                Out::Done(p, _) => {
                    match expect(i, p, T::KwFn) {
                        Out::Fail(f) => Out::Fail(f),
                        Out::Done(p, _) => {
                            let name_span = i.range(p.cur);
                            match ident(i, p) {
                                Out::Fail(f) => Out::Fail(f),
                                Out::Done(p, name) => {
                                    match skip_generics(i, p) {
                                        Out::Fail(f) => Out::Fail(f),
                                        Out::Done(p, _) => {
                                            match expect(i, p, T::LParen) {
                                                Out::Fail(f) => Out::Fail(f),
                                                Out::Done(p, _) => {
                                                    match host_params(i, p, d, ns, Seq::empty()) {
                                                        Out::Fail(f) => Out::Fail(f),
                                                        Out::Done(p, list) => {
                                                            match expect(i, p, T::RParen) {
                                                                Out::Fail(f) => Out::Fail(f),
                                                                Out::Done(p, _) => {
                                                                    match optional_type(i, p, d, T::Arrow) {
                                                                        Out::Fail(f) => Out::Fail(f),
                                                                        Out::Done(p, ret) => {
                                                                            match expect(i, p, T::Semi) {
                                                                                Out::Fail(f) => Out::Fail(f),
                                                                                Out::Done(p, _) => {
                                                                                    Out::Done(p, ExternFnTree {
                                                                                        name,
                                                                                        attributes: marks,
                                                                                        name_span,
                                                                                        documentation,
                                                                                        generics: Seq::empty(),
                                                                                        params: list.0,
                                                                                        ret,
                                                                                        variadic: list.1,
                                                                                    })
                                                                                },
                                                                            }
                                                                        },
                                                                    }
                                                                },
                                                            }
                                                        },
                                                    }
                                                },
                                            }
                                        },
                                    }
                                },
                            }
                        },
                    }
                },
            }
        },
    }
}

/// Host functions up to the closing brace.
#[verifier::opaque]
pub open spec fn host_functions(i: Input, p: At, d: nat, ns: bool, done: Seq<ExternFnTree>) -> Out<Seq<ExternFnTree>>
    decreases rem(i, p),
{
    if i.kind(p.cur) == T::RBrace || i.kind(p.cur) == T::Eof {
        Out::Done(p, done)
    } else {
        let q = p;
        match host_function(i, p, d, ns) {
            Out::Fail(f) => Out::Fail(f),
            Out::Done(p, one) => {
                if rem(i, p) < rem(i, q) {
                    host_functions(i, p, d, ns, done.push(one))
                } else {
                    Out::Done(p, done)
                }
            },
        }
    }
}

/// A block of host functions.
#[verifier::opaque]
pub open spec fn host_block(i: Input, p: At, d: nat, ns: bool) -> Out<ExternBlockTree>
{
    match expect(i, p, T::KwExtern) {
        Out::Fail(f) => Out::Fail(f),
        Out::Done(p, _) => {
            match (if i.kind(p.cur) == T::Str {
                let text = i.text(p.cur);
                match bump(i, p) {
                    Out::Fail(f) => Out::Fail(f),
                    Out::Done(p, _) => {
                        Out::Done(p, unquoted(text))
                    },
                }
            } else {
                Out::Done(p, "C"@)
            }) {
                Out::Fail(f) => Out::Fail(f),
                Out::Done(p, abi) => {
                    match expect(i, p, T::LBrace) {
                        Out::Fail(f) => Out::Fail(f),
                        Out::Done(p, _) => {
                            match host_functions(i, p, d, ns, Seq::empty()) {
                                Out::Fail(f) => Out::Fail(f),
                                Out::Done(p, fns) => {
                                    match expect(i, p, T::RBrace) {
                                        Out::Fail(f) => Out::Fail(f),
                                        Out::Done(p, _) => {
                                            Out::Done(p, ExternBlockTree {
                                                attributes: Seq::empty(),
                                                abi,
                                                documentation: None,
                                                fns,
                                            })
                                        },
                                    }
                                },
                            }
                        },
                    }
                },
            }
        },
    }
}

/// A method of a trait.
#[verifier::opaque]
pub open spec fn trait_method(i: Input, p: At, d: nat, ns: bool) -> Out<TraitMethodTree>
{
    let documentation = leading_documentation(i.trivia(p.cur), false);
    match attributes(i, p, d, Seq::empty()) {
        Out::Fail(f) => Out::Fail(f),
        Out::Done(p, marks) => {
            match signature(i, p, d, ns) {
                Out::Fail(f) => Out::Fail(f),
                Out::Done(p, sig) => {
                    match (if i.kind(p.cur) == T::LBrace {
                        match p_block(i, p, d, ns) {
                            Out::Fail(f) => Out::Fail(f),
                            Out::Done(p, block) => {
                                Out::Done(p, Some(block))
                            },
                        }
                    } else {
                        match expect(i, p, T::Semi) {
                            Out::Fail(f) => Out::Fail(f),
                            Out::Done(p, _) => {
                                Out::Done(p, None)
                            },
                        }
                    }) {
                        Out::Fail(f) => Out::Fail(f),
                        Out::Done(p, default) => {
                            Out::Done(p, TraitMethodTree {
                                name: sig.name,
                                attributes: marks,
                                documentation,
                                name_span: sig.name_span,
                                generics: sig.generics,
                                has_self: sig.has_self,
                                receiver_mutable: sig.receiver_mutable,
                                params: sig.params,
                                ret: sig.ret,
                                default,
                            })
                        },
                    }
                },
            }
        },
    }
}

/// Methods of a trait up to the closing brace.
#[verifier::opaque]
pub open spec fn trait_methods(i: Input, p: At, d: nat, ns: bool, done: Seq<TraitMethodTree>) -> Out<Seq<TraitMethodTree>>
    decreases rem(i, p),
{
    if i.kind(p.cur) == T::RBrace || i.kind(p.cur) == T::Eof {
        Out::Done(p, done)
    } else {
        let q = p;
        match trait_method(i, p, d, ns) {
            Out::Fail(f) => Out::Fail(f),
            Out::Done(p, one) => {
                if rem(i, p) < rem(i, q) {
                    trait_methods(i, p, d, ns, done.push(one))
                } else {
                    Out::Done(p, done)
                }
            },
        }
    }
}

/// A trait.
#[verifier::opaque]
pub open spec fn trait_decl(i: Input, p: At, d: nat, ns: bool) -> Out<TraitDeclTree>
{
    match expect(i, p, T::KwTrait) {
        Out::Fail(f) => Out::Fail(f),
        Out::Done(p, _) => {
            match ident(i, p) {
                Out::Fail(f) => Out::Fail(f),
                Out::Done(p, name) => {
                    match generics(i, p) {
                        Out::Fail(f) => Out::Fail(f),
                        Out::Done(p, list) => {
                            match where_clause(i, p, list) {
                                Out::Fail(f) => Out::Fail(f),
                                Out::Done(p, generics) => {
                                    match expect(i, p, T::LBrace) {
                                        Out::Fail(f) => Out::Fail(f),
                                        Out::Done(p, _) => {
                                            match trait_methods(i, p, d, ns, Seq::empty()) {
                                                Out::Fail(f) => Out::Fail(f),
                                                Out::Done(p, methods) => {
                                                    match expect(i, p, T::RBrace) {
                                                        Out::Fail(f) => Out::Fail(f),
                                                        Out::Done(p, _) => {
                                                            Out::Done(p, TraitDeclTree {
                                                                name,
                                                                attributes: Seq::empty(),
                                                                documentation: None,
                                                                generics,
                                                                methods,
                                                                is_pub: false,
                                                            })
                                                        },
                                                    }
                                                },
                                            }
                                        },
                                    }
                                },
                            }
                        },
                    }
                },
            }
        },
    }
}

/// Fields up to the closing brace.
#[verifier::opaque]
pub open spec fn fields(i: Input, p: At, d: nat, ns: bool, done: Seq<FieldTree>) -> Out<Seq<FieldTree>>
    decreases rem(i, p),
{
    if i.kind(p.cur) == T::RBrace {
        Out::Done(p, done)
    } else {
        let q = p;
        let documentation = leading_documentation(i.trivia(p.cur), false);
        match attributes(i, p, d, Seq::empty()) {
            Out::Fail(f) => Out::Fail(f),
            Out::Done(p, marks) => {
                match accept(i, p, T::KwPub) {
                    Out::Fail(f) => Out::Fail(f),
                    Out::Done(p, _) => {
                        let name_span = i.range(p.cur);
                        match ident(i, p) {
                            Out::Fail(f) => Out::Fail(f),
                            Out::Done(p, name) => {
                                match expect(i, p, T::Colon) {
                                    Out::Fail(f) => Out::Fail(f),
                                    Out::Done(p, _) => {
                                        match p_type(i, p, d) {
                                            Out::Fail(f) => Out::Fail(f),
                                            Out::Done(p, ty) => {
                                                let done = done.push(FieldTree {
                                                    name,
                                                    attributes: marks,
                                                    documentation,
                                                    ty,
                                                    name_span,
                                                });
                                                match accept(i, p, T::Comma) {
                                                    Out::Fail(f) => Out::Fail(f),
                                                    Out::Done(p, more) => {
                                                        if more && rem(i, p) < rem(i, q) {
                                                            fields(i, p, d, ns, done)
                                                        } else {
                                                            Out::Done(p, done)
                                                        }
                                                    },
                                                }
                                            },
                                        }
                                    },
                                }
                            },
                        }
                    },
                }
            },
        }
    }
}

/// Fields in braces.
#[verifier::opaque]
pub open spec fn field_list(i: Input, p: At, d: nat, ns: bool) -> Out<Seq<FieldTree>>
{
    match expect(i, p, T::LBrace) {
        Out::Fail(f) => Out::Fail(f),
        Out::Done(p, _) => {
            match fields(i, p, d, ns, Seq::empty()) {
                Out::Fail(f) => Out::Fail(f),
                Out::Done(p, list) => {
                    match expect(i, p, T::RBrace) {
                        Out::Fail(f) => Out::Fail(f),
                        Out::Done(p, _) => {
                            Out::Done(p, list)
                        },
                    }
                },
            }
        },
    }
}

/// A struct.
#[verifier::opaque]
pub open spec fn struct_decl(i: Input, p: At, d: nat, ns: bool) -> Out<StructDeclTree>
{
    match expect(i, p, T::KwStruct) {
        Out::Fail(f) => Out::Fail(f),
        Out::Done(p, _) => {
            match ident(i, p) {
                Out::Fail(f) => Out::Fail(f),
                Out::Done(p, name) => {
                    match generics(i, p) {
                        Out::Fail(f) => Out::Fail(f),
                        Out::Done(p, list) => {
                            match where_clause(i, p, list) {
                                Out::Fail(f) => Out::Fail(f),
                                Out::Done(p, generics) => {
                                    match accept(i, p, T::Semi) {
                                        Out::Fail(f) => Out::Fail(f),
                                        Out::Done(p, unit) => {
                                            match (if unit {
                                                Out::Done(p, Seq::empty())
                                            } else {
                                                field_list(i, p, d, ns)
                                            }) {
                                                Out::Fail(f) => Out::Fail(f),
                                                Out::Done(p, fields) => {
                                                    Out::Done(p, StructDeclTree {
                                                        name,
                                                        attributes: Seq::empty(),
                                                        documentation: None,
                                                        generics,
                                                        fields,
                                                        is_pub: false,
                                                    })
                                                },
                                            }
                                        },
                                    }
                                },
                            }
                        },
                    }
                },
            }
        },
    }
}

/// The payload of a variant.
#[verifier::opaque]
pub open spec fn variant_kind(i: Input, p: At, d: nat, ns: bool) -> Out<VariantKindTree>
{
    if i.kind(p.cur) == T::LParen {
        match bump(i, p) {
            Out::Fail(f) => Out::Fail(f),
            Out::Done(p, _) => {
                match types(i, p, d, T::RParen, Seq::empty()) {
                    Out::Fail(f) => Out::Fail(f),
                    Out::Done(p, list) => {
                        match expect(i, p, T::RParen) {
                            Out::Fail(f) => Out::Fail(f),
                            Out::Done(p, _) => {
                                Out::Done(p, VariantKindTree::Tuple(list))
                            },
                        }
                    },
                }
            },
        }
    } else if i.kind(p.cur) == T::LBrace {
        match field_list(i, p, d, ns) {
            Out::Fail(f) => Out::Fail(f),
            Out::Done(p, list) => {
                Out::Done(p, VariantKindTree::Struct(list))
            },
        }
    } else {
        Out::Done(p, VariantKindTree::Unit)
    }
}

/// Variants up to the closing brace.
#[verifier::opaque]
pub open spec fn variants(i: Input, p: At, d: nat, ns: bool, done: Seq<VariantTree>) -> Out<Seq<VariantTree>>
    decreases rem(i, p),
{
    if i.kind(p.cur) == T::RBrace {
        Out::Done(p, done)
    } else {
        let q = p;
        let documentation = leading_documentation(i.trivia(p.cur), false);
        match attributes(i, p, d, Seq::empty()) {
            Out::Fail(f) => Out::Fail(f),
            Out::Done(p, marks) => {
                match ident(i, p) {
                    Out::Fail(f) => Out::Fail(f),
                    Out::Done(p, name) => {
                        match variant_kind(i, p, d, ns) {
                            Out::Fail(f) => Out::Fail(f),
                            Out::Done(p, kind) => {
                                let done = done.push(VariantTree {
                                    name, attributes: marks, documentation, kind
                                });
                                match accept(i, p, T::Comma) {
                                    Out::Fail(f) => Out::Fail(f),
                                    Out::Done(p, more) => {
                                        if more && rem(i, p) < rem(i, q) {
                                            variants(i, p, d, ns, done)
                                        } else {
                                            Out::Done(p, done)
                                        }
                                    },
                                }
                            },
                        }
                    },
                }
            },
        }
    }
}

/// An enum.
#[verifier::opaque]
pub open spec fn enum_decl(i: Input, p: At, d: nat, ns: bool) -> Out<EnumDeclTree>
{
    match expect(i, p, T::KwEnum) {
        Out::Fail(f) => Out::Fail(f),
        Out::Done(p, _) => {
            match ident(i, p) {
                Out::Fail(f) => Out::Fail(f),
                Out::Done(p, name) => {
                    match generics(i, p) {
                        Out::Fail(f) => Out::Fail(f),
                        Out::Done(p, list) => {
                            match where_clause(i, p, list) {
                                Out::Fail(f) => Out::Fail(f),
                                Out::Done(p, generics) => {
                                    match expect(i, p, T::LBrace) {
                                        Out::Fail(f) => Out::Fail(f),
                                        Out::Done(p, _) => {
                                            match variants(i, p, d, ns, Seq::empty()) {
                                                Out::Fail(f) => Out::Fail(f),
                                                Out::Done(p, variants) => {
                                                    match expect(i, p, T::RBrace) {
                                                        Out::Fail(f) => Out::Fail(f),
                                                        Out::Done(p, _) => {
                                                            Out::Done(p, EnumDeclTree {
                                                                name,
                                                                attributes: Seq::empty(),
                                                                documentation: None,
                                                                generics,
                                                                variants,
                                                                is_pub: false,
                                                            })
                                                        },
                                                    }
                                                },
                                            }
                                        },
                                    }
                                },
                            }
                        },
                    }
                },
            }
        },
    }
}

/// Methods up to the closing brace.
#[verifier::opaque]
pub open spec fn methods(i: Input, p: At, d: nat, ns: bool, done: Seq<FnDeclTree>) -> Out<Seq<FnDeclTree>>
    decreases rem(i, p),
{
    if i.kind(p.cur) == T::RBrace || i.kind(p.cur) == T::Eof {
        Out::Done(p, done)
    } else {
        let q = p;
        let documentation = leading_documentation(i.trivia(p.cur), false);
        match attributes(i, p, d, Seq::empty()) {
            Out::Fail(f) => Out::Fail(f),
            Out::Done(p, marks) => {
                match accept(i, p, T::KwPub) {
                    Out::Fail(f) => Out::Fail(f),
                    Out::Done(p, is_pub) => {
                        match function(i, p, d, ns) {
                            Out::Fail(f) => Out::Fail(f),
                            Out::Done(p, one) => {
                                if rem(i, p) < rem(i, q) {
                                    methods(i, p, d, ns, done.push(FnDeclTree {
                                        is_pub, documentation, attributes: marks, ..one
                                    }))
                                } else {
                                    Out::Done(p, done)
                                }
                            },
                        }
                    },
                }
            },
        }
    }
}

/// The trait and the type of an `impl`.
#[verifier::opaque]
pub open spec fn impl_names(i: Input, p: At, d: nat, ns: bool) -> Out<(Option<Seq<char>>, Seq<char>)>
{
    match ident(i, p) {
        Out::Fail(f) => Out::Fail(f),
        Out::Done(p, first) => {
            match skip_generics(i, p) {
                Out::Fail(f) => Out::Fail(f),
                Out::Done(p, _) => {
                    match accept(i, p, T::KwFor) {
                        Out::Fail(f) => Out::Fail(f),
                        Out::Done(p, of_trait) => {
                            if of_trait {
                                match ident(i, p) {
                                    Out::Fail(f) => Out::Fail(f),
                                    Out::Done(p, owner) => {
                                        match skip_generics(i, p) {
                                            Out::Fail(f) => Out::Fail(f),
                                            Out::Done(p, _) => {
                                                Out::Done(p, (Some(first), owner))
                                            },
                                        }
                                    },
                                }
                            } else {
                                Out::Done(p, (None, first))
                            }
                        },
                    }
                },
            }
        },
    }
}

/// An `impl`.
#[verifier::opaque]
pub open spec fn impl_decl(i: Input, p: At, d: nat, ns: bool) -> Out<ImplDeclTree>
{
    match expect(i, p, T::KwImpl) {
        Out::Fail(f) => Out::Fail(f),
        Out::Done(p, _) => {
            match generics(i, p) {
                Out::Fail(f) => Out::Fail(f),
                Out::Done(p, list) => {
                    match impl_names(i, p, d, ns) {
                        Out::Fail(f) => Out::Fail(f),
                        Out::Done(p, names) => {
                            match where_clause(i, p, list) {
                                Out::Fail(f) => Out::Fail(f),
                                Out::Done(p, generics) => {
                                    match expect(i, p, T::LBrace) {
                                        Out::Fail(f) => Out::Fail(f),
                                        Out::Done(p, _) => {
                                            match methods(i, p, d, ns, Seq::empty()) {
                                                Out::Fail(f) => Out::Fail(f),
                                                Out::Done(p, methods) => {
                                                    match expect(i, p, T::RBrace) {
                                                        Out::Fail(f) => Out::Fail(f),
                                                        Out::Done(p, _) => {
                                                            Out::Done(p, ImplDeclTree {
                                                                attributes: Seq::empty(),
                                                                generics,
                                                                owner_name: names.1,
                                                                trait_name: names.0,
                                                                methods,
                                                            })
                                                        },
                                                    }
                                                },
                                            }
                                        },
                                    }
                                },
                            }
                        },
                    }
                },
            }
        },
    }
}

/// A name behind `as`, where there is one.
#[verifier::opaque]
pub open spec fn optional_alias(i: Input, p: At, d: nat, ns: bool) -> Out<Option<Seq<char>>>
{
    match accept(i, p, T::KwAs) {
        Out::Fail(f) => Out::Fail(f),
        Out::Done(p, some) => {
            if some {
                match ident(i, p) {
                    Out::Fail(f) => Out::Fail(f),
                    Out::Done(p, name) => {
                        Out::Done(p, Some(name))
                    },
                }
            } else {
                Out::Done(p, None)
            }
        },
    }
}

/// Imports of a group up to its closing brace.
#[verifier::opaque]
pub open spec fn import_group(i: Input, p: At, d: nat, ns: bool, prefix: Seq<Seq<char>>, done: Seq<UseImportTree>) -> Out<Seq<UseImportTree>>
    decreases rem(i, p),
{
    if i.kind(p.cur) == T::RBrace {
        Out::Done(p, done)
    } else {
        let q = p;
        match ident(i, p) {
            Out::Fail(f) => Out::Fail(f),
            Out::Done(p, leaf) => {
                match optional_alias(i, p, d, ns) {
                    Out::Fail(f) => Out::Fail(f),
                    Out::Done(p, alias) => {
                        let done = done.push(UseImportTree {
                            path: prefix.push(leaf), alias
                        });
                        match accept(i, p, T::Comma) {
                            Out::Fail(f) => Out::Fail(f),
                            Out::Done(p, more) => {
                                if more && rem(i, p) < rem(i, q) {
                                    import_group(i, p, d, ns, prefix, done)
                                } else {
                                    Out::Done(p, done)
                                }
                            },
                        }
                    },
                }
            },
        }
    }
}

/// The rest of a `use` behind its first names.
#[verifier::opaque]
pub open spec fn import_rest(i: Input, p: At, d: nat, ns: bool, prefix: Seq<Seq<char>>) -> Out<UseDeclTree>
    decreases rem(i, p),
{
    if i.kind(p.cur) == T::ColonColon {
        let q = p;
        match bump(i, p) {
            Out::Fail(f) => Out::Fail(f),
            Out::Done(p, _) => {
                if i.kind(p.cur) == T::LBrace {
                    match bump(i, p) {
                        Out::Fail(f) => Out::Fail(f),
                        Out::Done(p, _) => {
                            match import_group(i, p, d, ns, prefix, Seq::empty()) {
                                Out::Fail(f) => Out::Fail(f),
                                Out::Done(p, imports) => {
                                    match expect(i, p, T::RBrace) {
                                        Out::Fail(f) => Out::Fail(f),
                                        Out::Done(p, _) => {
                                            match expect(i, p, T::Semi) {
                                                Out::Fail(f) => Out::Fail(f),
                                                Out::Done(p, _) => {
                                                    Out::Done(p, UseDeclTree {
                                                        attributes: Seq::empty(), imports
                                                    })
                                                },
                                            }
                                        },
                                    }
                                },
                            }
                        },
                    }
                } else {
                    match ident(i, p) {
                        Out::Fail(f) => Out::Fail(f),
                        Out::Done(p, name) => {
                            if rem(i, p) < rem(i, q) {
                                import_rest(i, p, d, ns, prefix.push(name))
                            } else {
                                Out::Done(p, UseDeclTree {
                                    attributes: Seq::empty(), imports: Seq::empty()
                                })
                            }
                        },
                    }
                }
            },
        }
    } else {
        match optional_alias(i, p, d, ns) {
            Out::Fail(f) => Out::Fail(f),
            Out::Done(p, alias) => {
                match expect(i, p, T::Semi) {
                    Out::Fail(f) => Out::Fail(f),
                    Out::Done(p, _) => {
                        Out::Done(p, UseDeclTree {
                            attributes: Seq::empty(), imports: seq![UseImportTree {
                                path: prefix, alias
                            }
                            ]
                        })
                    },
                }
            },
        }
    }
}

/// A `use`.
#[verifier::opaque]
pub open spec fn use_decl(i: Input, p: At, d: nat, ns: bool) -> Out<UseDeclTree>
{
    match expect(i, p, T::KwUse) {
        Out::Fail(f) => Out::Fail(f),
        Out::Done(p, _) => {
            match ident(i, p) {
                Out::Fail(f) => Out::Fail(f),
                Out::Done(p, first) => {
                    import_rest(i, p, d, ns, seq![first])
                },
            }
        },
    }
}

/// An annotation declaration.
#[verifier::opaque]
pub open spec fn annotation_decl(i: Input, p: At, d: nat, ns: bool) -> Out<AnnotationDeclTree>
{
    match expect(i, p, T::Ident) {
        Out::Fail(f) => Out::Fail(f),
        Out::Done(p, _) => {
            let name_span = i.range(p.cur);
            match ident(i, p) {
                Out::Fail(f) => Out::Fail(f),
                Out::Done(p, name) => {
                    match expect(i, p, T::LParen) {
                        Out::Fail(f) => Out::Fail(f),
                        Out::Done(p, _) => {
                            match param_list(i, p, d, ns, Seq::empty()) {
                                Out::Fail(f) => Out::Fail(f),
                                Out::Done(p, params) => {
                                    match expect(i, p, T::RParen) {
                                        Out::Fail(f) => Out::Fail(f),
                                        Out::Done(p, _) => {
                                            match expect(i, p, T::Semi) {
                                                Out::Fail(f) => Out::Fail(f),
                                                Out::Done(p, _) => {
                                                    Out::Done(p, AnnotationDeclTree {
                                                        name,
                                                        name_span,
                                                        attributes: Seq::empty(),
                                                        documentation: None,
                                                        params,
                                                        is_pub: false,
                                                    })
                                                },
                                            }
                                        },
                                    }
                                },
                            }
                        },
                    }
                },
            }
        },
    }
}

/// An item.
#[verifier::opaque]
pub open spec fn item(i: Input, p: At, d: nat, ns: bool) -> Out<ItemTree>
{
    let documentation = leading_documentation(i.trivia(p.cur), false);
    match attributes(i, p, d, Seq::empty()) {
        Out::Fail(f) => Out::Fail(f),
        Out::Done(p, marks) => {
            match accept(i, p, T::KwPub) {
                Out::Fail(f) => Out::Fail(f),
                Out::Done(p, is_pub) => {
                    match i.kind(p.cur) {
                        T::KwFn => {
                            match function(i, p, d, ns) {
                                Out::Fail(f) => Out::Fail(f),
                                Out::Done(p, one) => {
                                    Out::Done(p, ItemTree::Fn(FnDeclTree {
                                        is_pub, documentation, attributes: marks, ..one
                                    }))
                                },
                            }
                        },
                        T::KwStruct => {
                            match struct_decl(i, p, d, ns) {
                                Out::Fail(f) => Out::Fail(f),
                                Out::Done(p, one) => {
                                    Out::Done(p, ItemTree::Struct(StructDeclTree {
                                        is_pub, documentation, attributes: marks, ..one
                                    }))
                                },
                            }
                        },
                        T::KwEnum => {
                            match enum_decl(i, p, d, ns) {
                                Out::Fail(f) => Out::Fail(f),
                                Out::Done(p, one) => {
                                    Out::Done(p, ItemTree::Enum(EnumDeclTree {
                                        is_pub, documentation, attributes: marks, ..one
                                    }))
                                },
                            }
                        },
                        T::KwImpl => {
                            match impl_decl(i, p, d, ns) {
                                Out::Fail(f) => Out::Fail(f),
                                Out::Done(p, one) => {
                                    Out::Done(p, ItemTree::Impl(ImplDeclTree { attributes: marks, ..one }))
                                },
                            }
                        },
                        T::KwTrait => {
                            match trait_decl(i, p, d, ns) {
                                Out::Fail(f) => Out::Fail(f),
                                Out::Done(p, one) => {
                                    Out::Done(p, ItemTree::Trait(TraitDeclTree {
                                        is_pub, documentation, attributes: marks, ..one
                                    }))
                                },
                            }
                        },
                        T::KwExtern => {
                            match host_block(i, p, d, ns) {
                                Out::Fail(f) => Out::Fail(f),
                                Out::Done(p, one) => {
                                    Out::Done(p, ItemTree::Extern(ExternBlockTree {
                                        documentation, attributes: marks, ..one
                                    }))
                                },
                            }
                        },
                        T::KwUse => {
                            match use_decl(i, p, d, ns) {
                                Out::Fail(f) => Out::Fail(f),
                                Out::Done(p, one) => {
                                    Out::Done(p, ItemTree::Use(UseDeclTree { attributes: marks, ..one }))
                                },
                            }
                        },
                        other => {
                            if annotation_ahead(i, p) {
                                match annotation_decl(i, p, d, ns) {
                                    Out::Fail(f) => Out::Fail(f),
                                    Out::Done(p, one) => {
                                        Out::Done(p, ItemTree::Annotation(AnnotationDeclTree {
                                            is_pub, documentation, attributes: marks, ..one
                                        }))
                                    },
                                }
                            } else {
                                Out::Fail(err(i, p, item_expected() + other.spec_user_string() + "`"@))
                            }
                        },
                    }
                },
            }
        },
    }
}

/// A statement of a chunk.
#[verifier::opaque]
pub open spec fn chunk_stmt(i: Input, p: At, d: nat, ns: bool, terminator: T) -> Out<StmtTree>
{
    match keyword_stmt(i, p, d, ns) {
        Out::Fail(f) => Out::Fail(f),
        Out::Done(p, keyword) => {
            match keyword {
                Some(s) => {
                    Out::Done(p, s)
                },
                None => {
                    match p_expr(i, p, d, ns) {
                        Out::Fail(f) => Out::Fail(f),
                        Out::Done(p, e) => {
                            match accept(i, p, T::Semi) {
                                Out::Fail(f) => Out::Fail(f),
                                Out::Done(p, closed) => {
                                    if closed || is_block_like(e) {
                                        Out::Done(p, StmtTree::Expr(e))
                                    } else {
                                        Out::Fail(err(i, p, "expected `;` or `"@ + terminator.spec_user_string() + "`, found `"@ + i.kind(p.cur).spec_user_string() + "`"@))
                                    }
                                },
                            }
                        },
                    }
                },
            }
        },
    }
}

/// The items and statements of a chunk up to a closing token.
#[verifier::opaque]
pub open spec fn chunk(i: Input, p: At, d: nat, ns: bool, terminator: T, done: ChunkTree) -> Out<ChunkTree>
    decreases rem(i, p),
{
    if i.kind(p.cur) == terminator || i.kind(p.cur) == T::Eof {
        Out::Done(p, done)
    } else {
        let q = p;
        if item_ahead(i, p) {
            match item(i, p, d, ns) {
                Out::Fail(f) => Out::Fail(f),
                Out::Done(p, one) => {
                    if rem(i, p) < rem(i, q) {
                        chunk(i, p, d, ns, terminator, with_item(done, one))
                    } else {
                        Out::Done(p, done)
                    }
                },
            }
        } else {
            let blank = has_blank_line(i.trivia(p.cur), 0);
            match chunk_stmt(i, p, d, ns, terminator) {
                Out::Fail(f) => Out::Fail(f),
                Out::Done(p, one) => {
                    if rem(i, p) < rem(i, q) {
                        chunk(i, p, d, ns, terminator, with_chunk_stmt(done, one, blank))
                    } else {
                        Out::Done(p, done)
                    }
                },
            }
        }
    }
}

} // verus!
