//! A cursor over a token stream with one token of lookahead.

use vstd::prelude::*;
use vstd::utf8::encode_utf8;

use crate::token::{RuaTokenKind, SourceRange, TokenData, Trivia};
use crate::tokenize::{StrictTokenStream, TokenizeError};

verus! {

/// The token at a position; the end of the text behind the last.
pub open spec fn token_at(stream: StrictTokenStream, position: int) -> TokenData {
    if 0 <= position < stream.tokens@.len() {
        stream.tokens@[position]
    } else {
        stream.end
    }
}

/// The text of pieces one behind the other.
pub open spec fn pieces_text(pieces: Seq<Trivia>) -> Seq<char>
    decreases pieces.len(),
{
    if pieces.len() == 0 {
        Seq::empty()
    } else {
        pieces_text(pieces.drop_last()) + pieces.last().text@
    }
}

/// Where the token before a position ends in the text.
pub open spec fn end_before(stream: StrictTokenStream, position: int) -> int {
    if position <= 0 {
        0
    } else {
        let range = token_at(stream, position - 1).range;
        range.start + range.len
    }
}

/// Whether a stream was cut from its text: each token holds the bytes of its range,
/// and the pieces before it those between the token before and itself.
pub open spec fn is_cut_from_text(stream: StrictTokenStream) -> bool {
    let bytes = encode_utf8(stream.text@);
    forall|i: int|
        0 <= i <= stream.tokens@.len() ==> {
            let token = #[trigger] token_at(stream, i);
            &&& end_before(stream, i) <= token.range.start
            &&& token.range.start + token.range.len <= bytes.len()
            &&& encode_utf8(token.text@) == bytes.subrange(
                token.range.start as int,
                token.range.start + token.range.len,
            )
            &&& encode_utf8(pieces_text(token.leading_trivia@)) == bytes.subrange(
                end_before(stream, i),
                token.range.start as int,
            )
        }
}

/// The position that is read next, where there is something to read.
pub open spec fn read_at(stream: StrictTokenStream, unread: int) -> Option<int> {
    if unread < stream.tokens@.len() {
        Some(unread)
    } else if stream.fault is Some {
        None
    } else {
        Some(stream.tokens@.len() as int)
    }
}

/// The position behind a position, as far as there is one.
pub open spec fn behind(total: int, position: int) -> int {
    if position < total {
        position + 1
    } else {
        position
    }
}

/// A cursor: the positions of the current and the next token, and the first
/// position that was not read.
#[derive(Debug)]
pub struct RuaLexer<'a> {
    stream: &'a StrictTokenStream,
    current: usize,
    next: usize,
    unread: usize,
    previous: Option<SourceRange>,
}

/// The state of a cursor.
pub struct Cursor {
    pub current: int,
    pub next: int,
    pub unread: int,
    pub previous: Option<SourceRange>,
}

/// The first state; none where one of the first two tokens cannot be read.
pub open spec fn cursor_start(stream: StrictTokenStream) -> Option<Cursor> {
    match read_at(stream, 0) {
        Some(current) => {
            let unread = behind(stream.tokens@.len() as int, current);
            match read_at(stream, unread) {
                Some(next) => Some(
                    Cursor {
                        current,
                        next,
                        unread: behind(stream.tokens@.len() as int, next),
                        previous: None,
                    },
                ),
                None => None,
            }
        },
        None => None,
    }
}

/// The state one token further; none where the token behind cannot be read.
pub open spec fn cursor_step(stream: StrictTokenStream, at: Cursor) -> Option<Cursor> {
    let previous = Some(token_at(stream, at.current).range);
    if token_at(stream, at.next).kind != RuaTokenKind::Eof {
        match read_at(stream, at.unread) {
            Some(next) => Some(
                Cursor {
                    current: at.next,
                    next,
                    unread: behind(stream.tokens@.len() as int, next),
                    previous,
                },
            ),
            None => None,
        }
    } else {
        Some(Cursor { current: at.next, previous, ..at })
    }
}

impl<'a> RuaLexer<'a> {
    /// The stream that is read.
    pub closed spec fn spec_stream(&self) -> StrictTokenStream {
        *self.stream
    }

    /// The state of the cursor.
    pub closed spec fn view(&self) -> Cursor {
        Cursor {
            current: self.current as int,
            next: self.next as int,
            unread: self.unread as int,
            previous: self.previous,
        }
    }

    /// The next token is the one behind the current one, and nothing behind it was
    /// read, unless the text has ended.
    pub closed spec fn wf(&self) -> bool {
        let total = self.stream.tokens@.len() as int;
        &&& self.current <= total
        &&& self.next <= total
        &&& self.unread <= total
        &&& {
            ||| self.next == self.current && token_at(*self.stream, self.current as int).kind
                == RuaTokenKind::Eof
            ||| self.next == behind(total, self.current as int) && self.unread == behind(
                total,
                self.next as int,
            )
        }
    }

    /// While the text has not ended, the next token is the one behind the current
    /// one, and nothing behind it was read.
    pub proof fn lemma_next(&self)
        requires
            self.wf(),
        ensures
            0 <= self@.current <= self.spec_stream().tokens@.len(),
            self@.current <= usize::MAX,
            token_at(self.spec_stream(), self@.current).kind != RuaTokenKind::Eof ==> self@.next
                == behind(self.spec_stream().tokens@.len() as int, self@.current) && self@.unread
                == behind(self.spec_stream().tokens@.len() as int, self@.next),
    {
    }

    /// The token at a position.
    fn token(&self, position: usize) -> (r: &TokenData)
        ensures
            *r == token_at(self.spec_stream(), position as int),
    {
        if position < self.stream.tokens.len() {
            &self.stream.tokens[position]
        } else {
            &self.stream.end
        }
    }

    /// Starts at the first token.
    pub fn from_stream(stream: &'a StrictTokenStream) -> (r: Result<RuaLexer<'a>, TokenizeError>)
        ensures
            match r {
                Ok(lexer) => lexer.wf() && lexer.spec_stream() == *stream && cursor_start(*stream)
                    == Some(lexer@),
                Err(error) => cursor_start(*stream) is None && stream.fault == Some(error),
            },
    {
        let total = stream.tokens.len();
        let mut unread: usize = 0;
        let mut current: usize = total;
        if 0 < total {
            current = 0;
            unread = 1;
        } else if let Some(fault) = &stream.fault {
            return Err(fault.copy());
        }
        let mut next: usize = total;
        if unread < total {
            next = unread;
            unread += 1;
        } else if let Some(fault) = &stream.fault {
            return Err(fault.copy());
        }
        Ok(RuaLexer { stream, current, next, unread, previous: None })
    }

    /// The whole source text.
    pub fn origin_text(&self) -> (r: &str)
        ensures
            r@ == self.spec_stream().text@,
    {
        self.stream.text.as_str()
    }

    /// The kind of the current token.
    pub fn current(&self) -> (r: RuaTokenKind)
        ensures
            r == token_at(self.spec_stream(), self@.current).kind,
    {
        self.token(self.current).kind
    }

    /// The range of the current token.
    pub fn current_range(&self) -> (r: SourceRange)
        ensures
            r == token_at(self.spec_stream(), self@.current).range,
    {
        self.token(self.current).range
    }

    /// The line of the current token.
    pub fn current_line(&self) -> (r: usize)
        ensures
            r == token_at(self.spec_stream(), self@.current).range.line,
    {
        self.token(self.current).range.line
    }

    /// The range of the token before the current one.
    pub fn previous_range(&self) -> (r: SourceRange)
        ensures
            r == match self@.previous {
                Some(range) => range,
                None => SourceRange::spec_empty(),
            },
    {
        match self.previous {
            Some(range) => range,
            None => SourceRange::empty(),
        }
    }

    /// The kind of the token behind the current one.
    pub fn peek_next(&self) -> (r: RuaTokenKind)
        ensures
            r == token_at(self.spec_stream(), self@.next).kind,
    {
        self.token(self.next).kind
    }

    /// The source text of the current token: in a stream that was cut from its text,
    /// the part of the text at the token's range.
    pub fn current_text(&self) -> (r: &str)
        ensures
            r@ == token_at(self.spec_stream(), self@.current).text@,
            self.wf() && is_cut_from_text(self.spec_stream()) ==> ({
                let range = token_at(self.spec_stream(), self@.current).range;
                encode_utf8(r@) == encode_utf8(self.spec_stream().text@).subrange(
                    range.start as int,
                    range.start + range.len,
                )
            }),
    {
        self.token(self.current).text.as_str()
    }

    /// The text between the previous token and the current one, in pieces.
    pub fn current_leading_trivia(&self) -> (r: &Vec<Trivia>)
        ensures
            *r == token_at(self.spec_stream(), self@.current).leading_trivia,
            self.wf() && is_cut_from_text(self.spec_stream()) ==> encode_utf8(pieces_text(r@))
                == encode_utf8(self.spec_stream().text@).subrange(
                end_before(self.spec_stream(), self@.current),
                token_at(self.spec_stream(), self@.current).range.start as int,
            ),
    {
        &self.token(self.current).leading_trivia
    }

    /// Moves one token further; at the end of the text nothing more is read. Where
    /// the token behind cannot be read, the cursor has left the old token already.
    pub fn bump(&mut self) -> (r: Result<(), TokenizeError>)
        requires
            old(self).wf(),
        ensures
            final(self).spec_stream() == old(self).spec_stream(),
            match r {
                Ok(_) => final(self).wf() && cursor_step(old(self).spec_stream(), old(self)@)
                    == Some(final(self)@),
                Err(error) => {
                    &&& cursor_step(old(self).spec_stream(), old(self)@) is None
                    &&& old(self).spec_stream().fault == Some(error)
                    &&& final(self)@ == (Cursor {
                        current: old(self)@.next,
                        next: old(self)@.next,
                        unread: old(self)@.unread,
                        previous: Some(token_at(old(self).spec_stream(), old(self)@.current).range),
                    })
                },
            },
    {
        self.previous = Some(self.token(self.current).range);
        self.current = self.next;
        let ended = self.token(self.current).kind == RuaTokenKind::Eof;
        if !ended {
            if self.unread < self.stream.tokens.len() {
                self.next = self.unread;
                self.unread += 1;
            } else {
                if let Some(fault) = &self.stream.fault {
                    return Err(fault.copy());
                }
                self.next = self.stream.tokens.len();
            }
        }
        Ok(())
    }
}

} // verus!
