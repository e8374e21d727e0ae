//! Whole programs.

use vstd::prelude::*;
use vstd::utf8::encode_utf8;

use crate::ast::Program;
use crate::diag::{DiagRecord, DiagnosticCode};
use crate::lexer::{cursor_start, RuaLexer};
use crate::parser::grammar::{chunk, failure_at, lex_failure, At, Failure, Input, Out};
use crate::parser::items::empty_chunk_tree;
use crate::parser::state::{ParseBudget, ParseError, Parser};
use crate::text::{cat3, decimal, decimal_text};
use crate::token::{RuaTokenKind as T, SourceRange};
use crate::tokenize::StrictTokenStream;
use crate::tree::ProgramTree;

verus! {

/// The first place of a parse.
pub open spec fn first_place(current: int) -> At {
    At {
        cur: current,
        prev: None,
        next_expr: 0,
        next_pattern: 0,
        next_type: 0,
        next_trait_ref: 0,
        next_generic: 0,
    }
}

/// The program that a token stream holds, or the failure that ends the parse.
pub open spec fn parsed_program(stream: StrictTokenStream, file: u32, max_nesting: nat) -> Result<
    ProgramTree,
    Failure,
> {
    match cursor_start(stream) {
        Some(cursor) => {
            let input = Input { stream, file, max_nesting };
            match chunk(
                input,
                first_place(cursor.current),
                0,
                false,
                T::Eof,
                empty_chunk_tree(),
            ) {
                Out::Done(_, contents) => Ok(
                    ProgramTree {
                        items: contents.items,
                        chunk: contents.block,
                        source_order: contents.source_order,
                        is_decl: false,
                        standard_library: None,
                    },
                ),
                Out::Fail(failure) => Err(failure),
            }
        },
        None => {
            let failure = lex_failure(stream.fault->0);
            Err(
                Failure {
                    diagnostic: DiagRecord { file: Some(file), ..failure.diagnostic },
                    ..failure
                },
            )
        },
    }
}

/// Parses a token stream whose identities and failures belong to a file.
pub fn parse_token_stream_with_file(
    stream: &StrictTokenStream,
    semantic_file: u32,
    budget: ParseBudget,
) -> (r: Result<Program, ParseError>)
    requires
        stream.end.kind == T::Eof,
    ensures
        match r {
            Ok(program) => parsed_program(*stream, semantic_file, budget.max_nesting as nat) == Ok::<
                ProgramTree,
                Failure,
            >(program.tree()),
            Err(error) => parsed_program(*stream, semantic_file, budget.max_nesting as nat) == Err::<
                ProgramTree,
                Failure,
            >(error.failure()),
        },
{
    let lexer = match RuaLexer::from_stream(stream) {
        Ok(lexer) => lexer,
        Err(error) => {
            let mut failed = ParseError::from_tokenize(error);
            failed.diagnostic.file = Some(semantic_file);
            return Err(failed);
        },
    };
    proof {
        lexer.lemma_next();
    }
    let mut parser = Parser {
        lexer,
        semantic_file,
        max_nesting: budget.max_nesting,
        nesting: 0,
        no_struct: false,
        next_expr: 0,
        next_pattern: 0,
        next_type: 0,
        next_trait_ref: 0,
        next_generic: 0,
    };
    match parser.parse_chunk_contents(T::Eof) {
        Ok(contents) => Ok(
            Program {
                items: contents.items,
                chunk: contents.block,
                source_order: contents.source_order,
                is_decl: false,
                standard_library: None,
            },
        ),
        Err(error) => Err(error),
    }
}

/// Parses a token stream of the first file.
pub fn parse_token_stream(stream: &StrictTokenStream, budget: ParseBudget) -> (r: Result<
    Program,
    ParseError,
>)
    requires
        stream.end.kind == T::Eof,
    ensures
        match r {
            Ok(program) => parsed_program(*stream, 0, budget.max_nesting as nat) == Ok::<
                ProgramTree,
                Failure,
            >(program.tree()),
            Err(error) => parsed_program(*stream, 0, budget.max_nesting as nat) == Err::<
                ProgramTree,
                Failure,
            >(error.failure()),
        },
{
    parse_token_stream_with_file(stream, 0, budget)
}

/// The number of line feeds among the first `n` bytes.
pub open spec fn line_feeds(bytes: Seq<u8>, n: int) -> nat
    decreases n,
{
    if n <= 0 || n > bytes.len() {
        0
    } else {
        line_feeds(bytes, n - 1) + (if bytes[n - 1] == 10 {
            1nat
        } else {
            0nat
        })
    }
}

/// The error of a text with more tokens than a limit; the range is that of the
/// first token too many.
pub fn token_limit_error(src: &str, start: usize, len: usize, file: u32, limit: usize) -> (r:
    ParseError)
    ensures
        r.failure() == limit_failure(src@, start, len, file, limit),
{
    let bytes = src.as_bytes();
    let mut feeds: usize = 0;
    let mut i: usize = 0;
    while i < start && i < bytes.len()
        invariant
            i <= start,
            i <= bytes@.len(),
            bytes@ == encode_utf8(src@),
            feeds == line_feeds(bytes@, i as int),
            feeds <= i,
        decreases start - i,
    {
        if bytes[i] == 10 {
            feeds += 1;
        }
        i += 1;
    }
    let line: usize = if feeds == usize::MAX {
        feeds
    } else {
        feeds + 1
    };
    ParseError::at_code(
        SourceRange { start, len, line, file },
        DiagnosticCode::ParseResourceLimit,
        cat3("token budget exceeded (limit ", decimal_text(limit as u64).as_str(), ")"),
    )
}

/// The line of a position: one more than the line feeds before it, as far as a
/// line number goes.
pub open spec fn line_of(bytes: Seq<u8>, start: usize) -> usize {
    let feeds = line_feeds(
        bytes,
        if start <= bytes.len() {
            start as int
        } else {
            bytes.len() as int
        },
    );
    if feeds >= usize::MAX {
        usize::MAX
    } else {
        (feeds + 1) as usize
    }
}

/// The failure of a text with more tokens than a limit.
pub open spec fn limit_failure(src: Seq<char>, start: usize, len: usize, file: u32, limit: usize) -> Failure {
    failure_at(
        SourceRange {
            start,
            len,
            line: line_of(encode_utf8(src), start),
            file,
        },
        DiagnosticCode::ParseResourceLimit,
        "token budget exceeded (limit "@ + decimal(limit as nat) + ")"@,
    )
}

/// The program of a token stream within a budget, or the failure: the first token
/// beyond the budget, or what ends the parse.
pub open spec fn program_within(
    stream: StrictTokenStream,
    file: u32,
    budget: ParseBudget,
) -> Result<ProgramTree, Failure> {
    if stream.tokens@.len() > budget.max_tokens {
        let extra = stream.tokens@[budget.max_tokens as int].range;
        Err(limit_failure(stream.text@, extra.start, extra.len, file, budget.max_tokens))
    } else {
        parsed_program(stream, file, budget.max_nesting as nat)
    }
}

/// Parses a token stream of a file, unless it has more tokens than the budget.
pub fn parse_stream_within(
    stream: &StrictTokenStream,
    semantic_file: u32,
    budget: ParseBudget,
) -> (r: Result<Program, ParseError>)
    requires
        stream.end.kind == T::Eof,
    ensures
        match r {
            Ok(program) => program_within(*stream, semantic_file, budget) == Ok::<
                ProgramTree,
                Failure,
            >(program.tree()),
            Err(error) => program_within(*stream, semantic_file, budget) == Err::<
                ProgramTree,
                Failure,
            >(error.failure()),
        },
{
    if stream.tokens.len() > budget.max_tokens {
        let extra = stream.tokens[budget.max_tokens].range;
        return Err(
            token_limit_error(
                stream.text.as_str(),
                extra.start,
                extra.len,
                semantic_file,
                budget.max_tokens,
            ),
        );
    }
    parse_token_stream_with_file(stream, semantic_file, budget)
}

/// Parses a text of a file within a budget. `tokens` holds the tokens of the
/// text, or where the first token beyond the budget stands and how long it is.
pub fn parse_with_semantic_file_and_budget(
    src: &str,
    tokens: Result<StrictTokenStream, (usize, usize)>,
    semantic_file: u32,
    budget: ParseBudget,
) -> (r: Result<Program, ParseError>)
    requires
        match tokens {
            Ok(stream) => stream.end.kind == T::Eof,
            Err(_) => true,
        },
    ensures
        match (r, tokens) {
            (Ok(program), Ok(stream)) => parsed_program(
                stream,
                semantic_file,
                budget.max_nesting as nat,
            ) == Ok::<ProgramTree, Failure>(program.tree()),
            (Err(error), Ok(stream)) => parsed_program(
                stream,
                semantic_file,
                budget.max_nesting as nat,
            ) == Err::<ProgramTree, Failure>(error.failure()),
            (Err(error), Err((start, len))) => error.failure() == limit_failure(
                src@,
                start,
                len,
                semantic_file,
                budget.max_tokens,
            ),
            (Ok(_), Err(_)) => false,
        },
{
    match tokens {
        Ok(stream) => parse_token_stream_with_file(&stream, semantic_file, budget),
        Err((start, len)) => Err(
            token_limit_error(src, start, len, semantic_file, budget.max_tokens),
        ),
    }
}

/// Parses a text of the first file within a budget.
pub fn parse_with_budget(
    src: &str,
    tokens: Result<StrictTokenStream, (usize, usize)>,
    budget: ParseBudget,
) -> (r: Result<Program, ParseError>)
    requires
        match tokens {
            Ok(stream) => stream.end.kind == T::Eof,
            Err(_) => true,
        },
    ensures
        match (r, tokens) {
            (Ok(program), Ok(stream)) => parsed_program(stream, 0, budget.max_nesting as nat)
                == Ok::<ProgramTree, Failure>(program.tree()),
            (Err(error), Ok(stream)) => parsed_program(stream, 0, budget.max_nesting as nat)
                == Err::<ProgramTree, Failure>(error.failure()),
            (Err(error), Err((start, len))) => error.failure() == limit_failure(
                src@,
                start,
                len,
                0,
                budget.max_tokens,
            ),
            (Ok(_), Err(_)) => false,
        },
{
    parse_with_semantic_file_and_budget(src, tokens, 0, budget)
}

} // verus!
