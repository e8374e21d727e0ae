//! What a parsed chunk promises of its source order.

use vstd::prelude::*;

use super::grammar::{
    accept, block_stmts, chunk, chunk_stmt, empty_block_tree, expect, is_block_like, item,
    item_ahead, keyword_stmt, p_block, p_expr, rem, with_chunk_stmt, with_item, with_stmt, At,
    ChunkTree, Input, Out,
};
use super::items::empty_chunk_tree;
use super::program::{first_place, parsed_program};
use crate::ast::ChunkEntry;
use crate::documentation::has_blank_line;
use crate::lexer::cursor_start;
use crate::token::RuaTokenKind as T;
use crate::tokenize::StrictTokenStream;
use crate::tree::{BlockTree, ItemTree, StmtTree};

verus! {

/// Whether the source order of a chunk lists its items and its statements, each
/// once and in order, and every statement tells whether a blank line stands
/// before it.
pub open spec fn lists_all(chunk: ChunkTree) -> bool {
    &&& chunk.block.statement_blank_before.len() == chunk.block.stmts.len()
    &&& chunk.block.tail is None
    &&& chunk.source_order.len() == chunk.items.len() + chunk.block.stmts.len()
    &&& forall|e: int|
        0 <= e < chunk.source_order.len() ==> match #[trigger] chunk.source_order[e] {
            ChunkEntry::Item(k) => k < chunk.items.len(),
            ChunkEntry::Statement(k) => k < chunk.block.stmts.len(),
        }
    &&& forall|e: int, g: int|
        0 <= e < g < chunk.source_order.len() ==> match (
            #[trigger] chunk.source_order[e],
            #[trigger] chunk.source_order[g],
        ) {
            (ChunkEntry::Item(a), ChunkEntry::Item(b)) => a < b,
            (ChunkEntry::Statement(a), ChunkEntry::Statement(b)) => a < b,
            _ => true,
        }
}

proof fn lemma_lists_item(chunk: ChunkTree, item: ItemTree)
    requires
        lists_all(chunk),
        chunk.items.len() < usize::MAX,
    ensures
        lists_all(with_item(chunk, item)),
{
    let after = with_item(chunk, item);
    let n = chunk.source_order.len() as int;
    assert forall|e: int| 0 <= e < after.source_order.len() implies match #[trigger] after.source_order[e] {
        ChunkEntry::Item(k) => k < after.items.len(),
        ChunkEntry::Statement(k) => k < after.block.stmts.len(),
    } by {
        if e < n {
            assert(after.source_order[e] == chunk.source_order[e]);
        }
    }
    assert forall|e: int, g: int| 0 <= e < g < after.source_order.len() implies match (
        #[trigger] after.source_order[e],
        #[trigger] after.source_order[g],
    ) {
        (ChunkEntry::Item(a), ChunkEntry::Item(b)) => a < b,
        (ChunkEntry::Statement(a), ChunkEntry::Statement(b)) => a < b,
        _ => true,
    } by {
        assert(after.source_order[e] == chunk.source_order[e]);
        if g < n {
            assert(after.source_order[g] == chunk.source_order[g]);
        }
    }
}

proof fn lemma_lists_statement(chunk: ChunkTree, statement: StmtTree, blank: bool)
    requires
        lists_all(chunk),
        chunk.block.stmts.len() < usize::MAX,
    ensures
        lists_all(with_chunk_stmt(chunk, statement, blank)),
{
    let after = with_chunk_stmt(chunk, statement, blank);
    let n = chunk.source_order.len() as int;
    assert forall|e: int| 0 <= e < after.source_order.len() implies match #[trigger] after.source_order[e] {
        ChunkEntry::Item(k) => k < after.items.len(),
        ChunkEntry::Statement(k) => k < after.block.stmts.len(),
    } by {
        if e < n {
            assert(after.source_order[e] == chunk.source_order[e]);
        }
    }
    assert forall|e: int, g: int| 0 <= e < g < after.source_order.len() implies match (
        #[trigger] after.source_order[e],
        #[trigger] after.source_order[g],
    ) {
        (ChunkEntry::Item(a), ChunkEntry::Item(b)) => a < b,
        (ChunkEntry::Statement(a), ChunkEntry::Statement(b)) => a < b,
        _ => true,
    } by {
        assert(after.source_order[e] == chunk.source_order[e]);
        if g < n {
            assert(after.source_order[g] == chunk.source_order[g]);
        }
    }
}

proof fn lemma_chunk_lists_all(
    i: Input,
    p: At,
    d: nat,
    ns: bool,
    terminator: T,
    done: ChunkTree,
)
    requires
        lists_all(done),
        done.items.len() + done.block.stmts.len() + rem(i, p) <= usize::MAX,
    ensures
        chunk(i, p, d, ns, terminator, done) matches Out::Done(_, contents) ==> lists_all(contents),
    decreases rem(i, p),
{
    reveal_with_fuel(chunk, 1);
    if i.kind(p.cur) == terminator || i.kind(p.cur) == T::Eof {
    } else if item_ahead(i, p) {
        if let Out::Done(q, one) = item(i, p, d, ns) {
            if rem(i, q) < rem(i, p) {
                lemma_lists_item(done, one);
                lemma_chunk_lists_all(i, q, d, ns, terminator, with_item(done, one));
            }
        }
    } else {
        let blank = has_blank_line(i.trivia(p.cur), 0);
        if let Out::Done(q, one) = chunk_stmt(i, p, d, ns, terminator) {
            if rem(i, q) < rem(i, p) {
                lemma_lists_statement(done, one, blank);
                lemma_chunk_lists_all(
                    i,
                    q,
                    d,
                    ns,
                    terminator,
                    with_chunk_stmt(done, one, blank),
                );
            }
        }
    }
}

/// The source order of a parsed program lists all its items and statements, each
/// once and in order.
pub proof fn law_source_order_lists_everything(
    stream: StrictTokenStream,
    file: u32,
    max_nesting: nat,
)
    requires
        stream.tokens@.len() < usize::MAX,
    ensures
        parsed_program(stream, file, max_nesting) matches Ok(program) ==> lists_all(
            ChunkTree {
                items: program.items,
                block: program.chunk,
                source_order: program.source_order,
            },
        ),
{
    if let Some(cursor) = cursor_start(stream) {
        let input = Input { stream, file, max_nesting };
        lemma_chunk_lists_all(
            input,
            first_place(cursor.current),
            0,
            false,
            T::Eof,
            empty_chunk_tree(),
        );
    }
}

/// Whether every statement of a block tells whether a blank line stands before it.
pub open spec fn parallel(block: BlockTree) -> bool {
    block.statement_blank_before.len() == block.stmts.len()
}

proof fn lemma_block_stmts(i: Input, p: At, d: nat, ns: bool, done: BlockTree)
    requires
        parallel(done),
    ensures
        block_stmts(i, p, d, ns, done) matches Out::Done(_, block) ==> parallel(block),
    decreases rem(i, p),
{
    if i.kind(p.cur) == T::RBrace || i.kind(p.cur) == T::Eof {
    } else {
        let blank = has_blank_line(i.trivia(p.cur), 0);
        if let Out::Done(q, keyword) = keyword_stmt(i, p, d, ns) {
            match keyword {
                Some(s) => {
                    if rem(i, q) < rem(i, p) {
                        lemma_block_stmts(i, q, d, ns, with_stmt(done, s, blank));
                    }
                },
                None => {
                    if let Out::Done(behind, e) = p_expr(i, q, d, ns) {
                        if let Out::Done(after, closed) = accept(i, behind, T::Semi) {
                            if (closed || (i.kind(after.cur) != T::RBrace && is_block_like(e)))
                                && rem(i, after) < rem(i, p) {
                                lemma_block_stmts(
                                    i,
                                    after,
                                    d,
                                    ns,
                                    with_stmt(done, StmtTree::Expr(e), blank),
                                );
                            }
                        }
                    }
                },
            }
        }
    }
}

/// Every block of a program keeps its marks for blank lines parallel to its
/// statements.
pub proof fn law_blocks_stay_parallel(i: Input, p: At, d: nat, ns: bool)
    ensures
        p_block(i, p, d, ns) matches Out::Done(_, block) ==> parallel(block),
{
    if d < i.max_nesting {
        if let Out::Done(q, _) = expect(i, p, T::LBrace) {
            lemma_block_stmts(i, q, d + 1, false, empty_block_tree());
        }
    }
}

} // verus!
