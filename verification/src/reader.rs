//! A byte cursor over source text, with the start of the token that is being
//! built.

use vstd::prelude::*;
use vstd::utf8::{
    encode_utf8, encode_utf8_decode_utf8, encode_utf8_valid_utf8, is_char_boundary, length_of_first_scalar,
    pop_first_scalar, valid_utf8,
};

verus! {

/// Indexing a `str` by a byte range gives the text of those bytes; both ends have
/// to stand between characters.
#[verifier::external_body]
fn text_slice<'a>(text: &'a str, from: usize, to: usize) -> (r: &'a str)
    requires
        from <= to <= encode_utf8(text@).len(),
        is_char_boundary(encode_utf8(text@), from as int),
        is_char_boundary(encode_utf8(text@), to as int),
    ensures
        encode_utf8(r@) == encode_utf8(text@).subrange(from as int, to as int),
{
    &text[from..to]
}

/// The character of one byte; the null character behind the end.
pub open spec fn char_at(bytes: Seq<u8>, position: int) -> char {
    if 0 <= position < bytes.len() {
        bytes[position] as char
    } else {
        '\0'
    }
}

/// The number of bytes that a leading byte announces.
pub open spec fn char_width(lead: u8) -> int {
    if lead <= 0x7F {
        1
    } else if 0xC0 <= lead <= 0xDF {
        2
    } else if 0xE0 <= lead <= 0xEF {
        3
    } else if 0xF0 <= lead <= 0xF7 {
        4
    } else {
        1
    }
}

/// The position behind the character at a position, as far as there is one.
pub open spec fn next_char_from(bytes: Seq<u8>, at: int) -> int {
    if at >= bytes.len() {
        at
    } else if at + char_width(bytes[at]) > bytes.len() {
        bytes.len() as int
    } else {
        at + char_width(bytes[at])
    }
}

/// The first position from `from` on that holds another character.
pub open spec fn run_end(bytes: Seq<u8>, ch: char, from: int) -> int
    decreases bytes.len() - from,
{
    if 0 <= from < bytes.len() && bytes[from] as char == ch {
        run_end(bytes, ch, from + 1)
    } else {
        from
    }
}

pub struct Reader<'a> {
    text: &'a str,
    bytes: &'a [u8],
    buff_start: usize,
    pos: usize,
}

impl<'a> Reader<'a> {
    /// The source text.
    pub closed spec fn spec_text(&self) -> Seq<char> {
        self.text@
    }

    /// The bytes of the source text.
    pub closed spec fn spec_bytes(&self) -> Seq<u8> {
        self.bytes@
    }

    /// Where the token that is being built starts.
    pub closed spec fn spec_buff_start(&self) -> int {
        self.buff_start as int
    }

    /// The cursor.
    pub closed spec fn spec_pos(&self) -> int {
        self.pos as int
    }

    /// The bytes are those of the text, and the token ends at the cursor.
    pub closed spec fn wf(&self) -> bool {
        &&& self.bytes@ == encode_utf8(self.text@)
        &&& self.buff_start <= self.pos <= self.bytes@.len()
    }

    /// The token starts at or before the cursor, and the cursor stands in the text.
    pub proof fn lemma_bounds(&self)
        requires
            self.wf(),
        ensures
            0 <= self.spec_buff_start() <= self.spec_pos() <= self.spec_bytes().len(),
            self.spec_bytes() == encode_utf8(self.spec_text()),
    {
    }

    /// What a step of the cursor leaves alone.
    pub open spec fn moved_from(&self, before: &Reader<'a>) -> bool {
        &&& self.wf()
        &&& self.spec_text() == before.spec_text()
        &&& self.spec_bytes() == before.spec_bytes()
        &&& self.spec_buff_start() == before.spec_buff_start()
    }

    /// A cursor at the start of a text.
    pub fn new(text: &'a str) -> (r: Self)
        ensures
            r.wf(),
            r.spec_text() == text@,
            r.spec_bytes() == encode_utf8(text@),
            r.spec_buff_start() == 0,
            r.spec_pos() == 0,
    {
        Reader { text, bytes: text.as_bytes(), buff_start: 0, pos: 0 }
    }

    /// Whether the cursor stands at the end.
    pub fn is_eof(&self) -> (r: bool)
        requires
            self.wf(),
        ensures
            r == (self.spec_pos() >= self.spec_bytes().len()),
    {
        self.pos >= self.bytes.len()
    }

    /// The character at the cursor.
    pub fn current_char(&self) -> (r: char)
        requires
            self.wf(),
        ensures
            r == char_at(self.spec_bytes(), self.spec_pos()),
    {
        if self.pos < self.bytes.len() {
            self.bytes[self.pos] as char
        } else {
            '\0'
        }
    }

    /// The character behind the one at the cursor.
    pub fn next_char(&self) -> (r: char)
        requires
            self.wf(),
        ensures
            r == char_at(self.spec_bytes(), self.spec_pos() + 1),
    {
        if self.pos < self.bytes.len() && self.pos + 1 < self.bytes.len() {
            self.bytes[self.pos + 1] as char
        } else {
            '\0'
        }
    }

    /// Moves one byte further, as far as there is one.
    pub fn bump(&mut self)
        requires
            old(self).wf(),
        ensures
            final(self).moved_from(old(self)),
            final(self).spec_pos() == (if old(self).spec_pos() < old(self).spec_bytes().len() {
                old(self).spec_pos() + 1
            } else {
                old(self).spec_pos()
            }),
    {
        if self.pos < self.bytes.len() {
            self.pos += 1;
        }
    }

    /// Moves over one whole character, as far as there is one.
    pub fn bump_char(&mut self)
        requires
            old(self).wf(),
        ensures
            final(self).moved_from(old(self)),
            final(self).spec_pos() == next_char_from(old(self).spec_bytes(), old(self).spec_pos()),
    {
        if self.pos >= self.bytes.len() {
            return ;
        }
        let lead = self.bytes[self.pos];
        let width: usize = if lead <= 0x7F {
            1
        } else if 0xC0 <= lead && lead <= 0xDF {
            2
        } else if 0xE0 <= lead && lead <= 0xEF {
            3
        } else if 0xF0 <= lead && lead <= 0xF7 {
            4
        } else {
            1
        };
        let left = self.bytes.len() - self.pos;
        if width > left {
            self.pos = self.bytes.len();
        } else {
            self.pos += width;
        }
    }

    /// Starts a new token at the cursor.
    pub fn reset_buff(&mut self)
        requires
            old(self).wf(),
        ensures
            final(self).wf(),
            final(self).spec_text() == old(self).spec_text(),
            final(self).spec_bytes() == old(self).spec_bytes(),
            final(self).spec_pos() == old(self).spec_pos(),
            final(self).spec_buff_start() == old(self).spec_pos(),
    {
        self.buff_start = self.pos;
    }

    /// Where the token that is being built starts.
    pub fn buff_start(&self) -> (r: usize)
        ensures
            r == self.spec_buff_start(),
    {
        self.buff_start
    }

    /// The cursor.
    pub fn pos(&self) -> (r: usize)
        ensures
            r == self.spec_pos(),
    {
        self.pos
    }

    /// The text of the token that is being built.
    pub fn current_text(&self) -> (r: &'a str)
        requires
            self.wf(),
            is_char_boundary(self.spec_bytes(), self.spec_buff_start()),
            is_char_boundary(self.spec_bytes(), self.spec_pos()),
        ensures
            encode_utf8(r@) == self.spec_bytes().subrange(self.spec_buff_start(), self.spec_pos()),
    {
        text_slice(self.text, self.buff_start, self.pos)
    }

    /// Whether the cursor stands at the start of a line.
    pub fn is_start_of_line(&self) -> (r: bool)
        requires
            self.wf(),
        ensures
            r == (self.spec_pos() == 0 || self.spec_bytes()[self.spec_pos() - 1] == 10
                || self.spec_bytes()[self.spec_pos() - 1] == 13),
    {
        self.pos == 0 || self.bytes[self.pos - 1] == 10 || self.bytes[self.pos - 1] == 13
    }

    /// Moves on while a test holds; gives the number of bytes.
    pub fn eat_while<F: Fn(char) -> bool>(&mut self, pred: F) -> (n: usize)
        requires
            old(self).wf(),
            forall|c: char| pred.requires((c,)),
        ensures
            final(self).moved_from(old(self)),
            final(self).spec_pos() <= final(self).spec_bytes().len(),
            final(self).spec_pos() == old(self).spec_pos() + n,
            forall|k: int|
                old(self).spec_pos() <= k < final(self).spec_pos() ==> pred.ensures(
                    ((#[trigger] old(self).spec_bytes()[k]) as char,),
                    true,
                ),
            final(self).spec_pos() == old(self).spec_bytes().len() || pred.ensures(
                (char_at(old(self).spec_bytes(), final(self).spec_pos()),),
                false,
            ),
    {
        let mut n: usize = 0;
        while !self.is_eof()
            invariant_except_break
                self.moved_from(old(self)),
                self.spec_pos() == old(self).spec_pos() + n,
                self.spec_pos() <= self.spec_bytes().len(),
                n <= self.spec_pos() <= usize::MAX,
                forall|c: char| pred.requires((c,)),
                forall|k: int|
                    old(self).spec_pos() <= k < self.spec_pos() ==> pred.ensures(
                        ((#[trigger] old(self).spec_bytes()[k]) as char,),
                        true,
                    ),
            ensures
                self.moved_from(old(self)),
                self.spec_pos() == old(self).spec_pos() + n,
                forall|k: int|
                    old(self).spec_pos() <= k < self.spec_pos() ==> pred.ensures(
                        ((#[trigger] old(self).spec_bytes()[k]) as char,),
                        true,
                    ),
                self.spec_pos() == old(self).spec_bytes().len() || pred.ensures(
                    (char_at(old(self).spec_bytes(), self.spec_pos()),),
                    false,
                ),
            decreases self.spec_bytes().len() - self.spec_pos(),
        {
            if !pred(self.current_char()) {
                break;
            }
            self.bump();
            n += 1;
        }
        n
    }

    /// Moves over a run of one character, as far as the text goes; gives the number
    /// of bytes.
    pub fn eat_when(&mut self, ch: char) -> (n: usize)
        requires
            old(self).wf(),
        ensures
            final(self).moved_from(old(self)),
            final(self).spec_pos() <= final(self).spec_bytes().len(),
            final(self).spec_pos() == run_end(old(self).spec_bytes(), ch, old(self).spec_pos()),
            final(self).spec_pos() == old(self).spec_pos() + n,
    {
        let mut n: usize = 0;
        while !self.is_eof() && self.current_char() == ch
            invariant
                self.moved_from(old(self)),
                self.spec_pos() == old(self).spec_pos() + n,
                n <= self.spec_pos() <= self.spec_bytes().len(),
                self.spec_pos() <= usize::MAX,
                run_end(self.spec_bytes(), ch, self.spec_pos()) == run_end(
                    self.spec_bytes(),
                    ch,
                    old(self).spec_pos(),
                ),
            decreases self.spec_bytes().len() - self.spec_pos(),
        {
            self.bump();
            n += 1;
        }
        n
    }
}

proof fn lemma_next_boundary(bytes: Seq<u8>, position: int)
    requires
        valid_utf8(bytes),
        is_char_boundary(bytes, position),
        0 <= position < bytes.len(),
    ensures
        position + char_width(bytes[position]) <= bytes.len(),
        is_char_boundary(bytes, position + char_width(bytes[position])),
    decreases bytes.len(),
{
    let first = length_of_first_scalar(bytes);
    let rest = pop_first_scalar(bytes);
    assert(valid_utf8(rest));
    reveal_with_fuel(is_char_boundary, 2);
    if position == 0 {
        assert(char_width(bytes[0]) == first);
        assert(is_char_boundary(rest, 0));
    } else {
        assert(is_char_boundary(rest, position - first));
        assert(position >= first);
        assert(rest[position - first] == bytes[position]);
        lemma_next_boundary(rest, position - first);
    }
}

/// From between two characters of a text, a step over a whole character ends
/// between two characters again, inside the text.
pub proof fn law_whole_steps_stay_between_characters(text: Seq<char>, position: int)
    requires
        is_char_boundary(encode_utf8(text), position),
        0 <= position < encode_utf8(text).len(),
    ensures
        position + char_width(encode_utf8(text)[position]) <= encode_utf8(text).len(),
        is_char_boundary(
            encode_utf8(text),
            position + char_width(encode_utf8(text)[position]),
        ),
{
    encode_utf8_valid_utf8(text);
    lemma_next_boundary(encode_utf8(text), position);
}

/// One step of a reader: over a whole character, or to the start of a new token.
pub enum Step {
    Char,
    Reset,
}

/// The bytes of the tokens that a reader has left behind after some steps from the
/// start of a text, where the present token starts, and the cursor.
pub open spec fn read_by(bytes: Seq<u8>, steps: Seq<Step>) -> (Seq<Seq<u8>>, int, int)
    decreases steps.len(),
{
    if steps.len() == 0 {
        (Seq::empty(), 0, 0)
    } else {
        let (tokens, start, at) = read_by(bytes, steps.drop_last());
        match steps.last() {
            Step::Char => (tokens, start, next_char_from(bytes, at)),
            Step::Reset => (tokens.push(bytes.subrange(start, at)), at, at),
        }
    }
}

/// The tokens one behind the other.
pub open spec fn run_together(tokens: Seq<Seq<u8>>) -> Seq<u8>
    decreases tokens.len(),
{
    if tokens.len() == 0 {
        Seq::empty()
    } else {
        run_together(tokens.drop_last()) + tokens.last()
    }
}

/// However a reader steps over whole characters and starts new tokens, its cursor
/// and the start of its token stand between characters, and the tokens that it left
/// behind with the present one make up the text before the cursor. Right after a
/// new token was started, it is empty.
pub proof fn law_tokens_make_up_the_text(text: Seq<char>, steps: Seq<Step>)
    ensures
        ({
            let bytes = encode_utf8(text);
            let (tokens, start, at) = read_by(bytes, steps);
            &&& 0 <= start <= at <= bytes.len()
            &&& is_char_boundary(bytes, start)
            &&& is_char_boundary(bytes, at)
            &&& run_together(tokens) + bytes.subrange(start, at) == bytes.take(at)
            &&& steps.len() > 0 && steps.last() is Reset ==> forall|token: Seq<char>|
                #[trigger] encode_utf8(token) == bytes.subrange(start, at) ==> token == Seq::<
                    char,
                >::empty()
        }),
    decreases steps.len(),
{
    let bytes = encode_utf8(text);
    encode_utf8_valid_utf8(text);
    if steps.len() == 0 {
        reveal_with_fuel(is_char_boundary, 1);
        assert(run_together(Seq::empty()) + bytes.subrange(0, 0) =~= bytes.take(0));
    } else {
        law_tokens_make_up_the_text(text, steps.drop_last());
        let (tokens, start, at) = read_by(bytes, steps.drop_last());
        match steps.last() {
            Step::Char => {
                if at < bytes.len() {
                    lemma_next_boundary(bytes, at);
                }
                let next = next_char_from(bytes, at);
                assert(bytes.subrange(start, next) =~= bytes.subrange(start, at) + bytes.subrange(
                    at,
                    next,
                ));
                assert(bytes.take(next) =~= bytes.take(at) + bytes.subrange(at, next));
                assert(run_together(tokens) + bytes.subrange(start, next) =~= run_together(tokens)
                    + bytes.subrange(start, at) + bytes.subrange(at, next));
            },
            Step::Reset => {
                let more = tokens.push(bytes.subrange(start, at));
                assert(more.drop_last() =~= tokens);
                assert(run_together(more) + bytes.subrange(at, at) =~= bytes.take(at));
                assert forall|token: Seq<char>| #[trigger]
                    encode_utf8(token) == bytes.subrange(at, at) implies token == Seq::<
                    char,
                >::empty() by {
                    if token.len() > 0 {
                        encode_utf8_decode_utf8(token);
                        encode_utf8_decode_utf8(Seq::<char>::empty());
                        assert(encode_utf8(Seq::<char>::empty()) =~= Seq::<u8>::empty());
                        assert(bytes.subrange(at, at) =~= Seq::<u8>::empty());
                    }
                }
            },
        }
    }
}

} // verus!
