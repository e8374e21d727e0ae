//! Documentation and blank lines in the text between tokens.

use vstd::prelude::*;

use crate::text::{chars_of, join, joined, text_between, texts};
use crate::token::{RuaTokenKind, Trivia};

verus! {

/// Whether a character is white space.
pub open spec fn is_white(c: char) -> bool {
    ||| '\u{9}' <= c <= '\u{d}'
    ||| c == ' '
    ||| c == '\u{85}'
    ||| c == '\u{a0}'
    ||| c == '\u{1680}'
    ||| '\u{2000}' <= c <= '\u{200a}'
    ||| c == '\u{2028}'
    ||| c == '\u{2029}'
    ||| c == '\u{202f}'
    ||| c == '\u{205f}'
    ||| c == '\u{3000}'
}

fn white(c: char) -> (r: bool)
    ensures
        r == is_white(c),
{
    ('\u{9}' <= c && c <= '\u{d}') || c == ' ' || c == '\u{85}' || c == '\u{a0}' || c == '\u{1680}'
        || ('\u{2000}' <= c && c <= '\u{200a}') || c == '\u{2028}' || c == '\u{2029}' || c
        == '\u{202f}' || c == '\u{205f}' || c == '\u{3000}'
}

/// The first position from `from` on that is not white space.
pub open spec fn first_dark(s: Seq<char>, from: int) -> int
    decreases s.len() - from,
{
    if 0 <= from < s.len() && is_white(s[from]) {
        first_dark(s, from + 1)
    } else {
        from
    }
}

/// The end of what is left of `s[from..to]` without white space at its end.
pub open spec fn last_dark(s: Seq<char>, from: int, to: int) -> int
    decreases to - from,
{
    if 0 <= from < to <= s.len() && is_white(s[to - 1]) {
        last_dark(s, from, to - 1)
    } else {
        to
    }
}

/// A text without white space at both ends.
pub open spec fn trimmed(s: Seq<char>) -> Seq<char> {
    let from = first_dark(s, 0);
    s.subrange(from, last_dark(s, from, s.len() as int))
}

/// The positions between which `chars[from..to]` is not white space at its ends.
fn dark_part(chars: &Vec<char>) -> (r: (usize, usize))
    ensures
        r.0 == first_dark(chars@, 0),
        r.1 == last_dark(chars@, r.0 as int, chars@.len() as int),
        r.0 <= r.1 <= chars@.len(),
{
    let mut from: usize = 0;
    while from < chars.len() && white(chars[from])
        invariant
            from <= chars.len(),
            first_dark(chars@, from as int) == first_dark(chars@, 0),
        decreases chars.len() - from,
    {
        from += 1;
    }
    let mut to: usize = chars.len();
    while to > from && white(chars[to - 1])
        invariant
            from <= to <= chars.len(),
            last_dark(chars@, from as int, to as int) == last_dark(
                chars@,
                from as int,
                chars@.len() as int,
            ),
        decreases to,
    {
        to -= 1;
    }
    (from, to)
}

/// A text without white space at both ends.
pub fn trim(s: &str) -> (r: String)
    ensures
        r@ == trimmed(s@),
{
    let chars = chars_of(s);
    let (from, to) = dark_part(&chars);
    text_between(&chars, from, to)
}

/// The number of line ends of a text from `from` on; a carriage return before a
/// line feed is part of that line end.
pub open spec fn line_ends(s: Seq<char>, from: int) -> nat
    decreases s.len() - from,
{
    if from < 0 || from >= s.len() {
        0
    } else {
        let here: nat = if s[from] == '\n' || (s[from] == '\r' && !(from + 1 < s.len() && s[from
            + 1] == '\n')) {
            1
        } else {
            0
        };
        here + line_ends(s, from + 1)
    }
}

/// Whether a piece of white space holds an empty line.
pub open spec fn is_blank_piece(piece: Trivia) -> bool {
    piece.kind == RuaTokenKind::Whitespace && line_ends(piece.text@, 0) >= 2
}

/// Whether an empty line stands among the pieces `list[from..]`.
pub open spec fn has_blank_line(list: Seq<Trivia>, from: int) -> bool
    decreases list.len() - from,
{
    0 <= from < list.len() && (is_blank_piece(list[from]) || has_blank_line(list, from + 1))
}

fn blank_piece(piece: &Trivia) -> (r: bool)
    ensures
        r == is_blank_piece(*piece),
{
    if piece.kind != RuaTokenKind::Whitespace {
        return false;
    }
    let chars = chars_of(piece.text.as_str());
    let mut count: usize = 0;
    let mut i: usize = 0;
    while i < chars.len()
        invariant
            i <= chars.len(),
            count <= i,
            chars@ == piece.text@,
            count + line_ends(piece.text@, i as int) == line_ends(piece.text@, 0),
        decreases chars.len() - i,
    {
        if chars[i] == '\n' || (chars[i] == '\r' && !(i + 1 < chars.len() && chars[i + 1] == '\n')) {
            count += 1;
        }
        i += 1;
    }
    count >= 2
}

/// Whether an empty line stands among the pieces.
pub fn leading_trivia_has_blank_line(list: &Vec<Trivia>) -> (r: bool)
    ensures
        r == has_blank_line(list@, 0),
{
    let mut i: usize = 0;
    while i < list.len()
        invariant
            i <= list.len(),
            has_blank_line(list@, i as int) == has_blank_line(list@, 0),
        decreases list.len() - i,
    {
        if blank_piece(&list[i]) {
            return true;
        }
        i += 1;
    }
    false
}

/// The lines of a text from `from` on; `open` is what the first of them holds
/// already.
pub open spec fn lines_from(s: Seq<char>, from: int, open: Seq<char>) -> Seq<Seq<char>>
    decreases s.len() - from,
{
    if from < 0 || from >= s.len() {
        seq![open]
    } else if s[from] == '\n' {
        seq![open] + lines_from(s, from + 1, Seq::empty())
    } else {
        lines_from(s, from + 1, open.push(s[from]))
    }
}

/// The first position from `from` on that is no star.
pub open spec fn first_plain(s: Seq<char>, from: int) -> int
    decreases s.len() - from,
{
    if 0 <= from < s.len() && s[from] == '*' {
        first_plain(s, from + 1)
    } else {
        from
    }
}

/// A line of a block comment without the stars that it starts with.
pub open spec fn comment_line(line: Seq<char>) -> Seq<char> {
    let text = trimmed(line);
    trimmed(text.skip(first_plain(text, 0)))
}

/// The lines of a block comment.
pub open spec fn comment_lines(body: Seq<char>) -> Seq<Seq<char>> {
    let lines = lines_from(body, 0, Seq::empty());
    Seq::new(lines.len(), |i: int| comment_line(lines[i]))
}

/// What a comment documents; none where it is an ordinary comment.
pub open spec fn comment_documentation(raw: Seq<char>, inner: bool) -> Option<Seq<char>> {
    let text = trimmed(raw);
    let mark = if inner {
        '!'
    } else {
        '/'
    };
    let block_mark = if inner {
        '!'
    } else {
        '*'
    };
    if text.len() >= 3 && text[0] == '/' && text[1] == '/' && text[2] == mark {
        Some(trimmed(text.skip(3)))
    } else if text.len() >= 5 && text[0] == '/' && text[1] == '*' && text[2] == block_mark
        && text[text.len() - 2] == '*' && text[text.len() - 1] == '/' {
        Some(
            trimmed(
                joined(comment_lines(text.subrange(3, text.len() - 2)), "\n"@),
            ),
        )
    } else {
        None
    }
}

/// The documentation in the pieces `list[from..]` behind what was found before.
pub open spec fn documentation_from(
    list: Seq<Trivia>,
    from: int,
    inner: bool,
    docs: Seq<Seq<char>>,
) -> Seq<Seq<char>>
    decreases list.len() - from,
{
    if from < 0 || from >= list.len() {
        docs
    } else {
        let piece = list[from];
        match piece.kind {
            RuaTokenKind::Whitespace => if is_blank_piece(piece) {
                if inner && docs.len() > 0 {
                    docs
                } else {
                    documentation_from(list, from + 1, inner, Seq::empty())
                }
            } else {
                documentation_from(list, from + 1, inner, docs)
            },
            RuaTokenKind::LineComment | RuaTokenKind::BlockComment => match comment_documentation(
                piece.text@,
                inner,
            ) {
                Some(text) => documentation_from(list, from + 1, inner, docs.push(text)),
                None => if inner && docs.len() > 0 {
                    docs
                } else {
                    documentation_from(list, from + 1, inner, Seq::empty())
                },
            },
            _ => documentation_from(list, from + 1, inner, Seq::empty()),
        }
    }
}

/// The documentation that stands right before a token.
pub open spec fn leading_documentation(list: Seq<Trivia>, inner: bool) -> Option<Seq<char>> {
    let text = trimmed(joined(documentation_from(list, 0, inner, Seq::empty()), "\n"@));
    if text.len() == 0 {
        None
    } else {
        Some(text)
    }
}

fn lines_of(s: &str) -> (r: Vec<String>)
    ensures
        texts(r@) == lines_from(s@, 0, Seq::empty()),
{
    let chars = chars_of(s);
    let mut out: Vec<String> = Vec::new();
    let mut line = String::new();
    let mut i: usize = 0;
    proof {
        assert(texts(out@) =~= Seq::empty());
        assert(line@ =~= Seq::empty());
        assert(texts(out@) + lines_from(s@, 0, line@) =~= lines_from(s@, 0, Seq::empty()));
    }
    while i < chars.len()
        invariant
            i <= chars.len(),
            chars@ == s@,
            texts(out@) + lines_from(s@, i as int, line@) == lines_from(s@, 0, Seq::empty()),
        decreases chars.len() - i,
    {
        let ghost before = texts(out@);
        let ghost open = line@;
        if chars[i] == '\n' {
            out.push(line);
            line = String::new();
            proof {
                assert(line@ =~= Seq::empty());
                assert(texts(out@) =~= before.push(open));
                assert(texts(out@) + lines_from(s@, i + 1, line@) =~= before + lines_from(
                    s@,
                    i as int,
                    open,
                ));
            }
        } else {
            line.push(chars[i]);
        }
        i += 1;
    }
    let ghost before = texts(out@);
    let ghost open = line@;
    out.push(line);
    proof {
        assert(texts(out@) =~= before + seq![open]);
    }
    out
}

fn line_of_comment(line: &str) -> (r: String)
    ensures
        r@ == comment_line(line@),
{
    let text = trim(line);
    let chars = chars_of(text.as_str());
    let mut from: usize = 0;
    while from < chars.len() && chars[from] == '*'
        invariant
            from <= chars.len(),
            chars@ == text@,
            first_plain(text@, from as int) == first_plain(text@, 0),
        decreases chars.len() - from,
    {
        from += 1;
    }
    let rest = text_between(&chars, from, chars.len());
    proof {
        assert(rest@ =~= text@.skip(from as int));
    }
    trim(rest.as_str())
}

/// What a comment documents; none where it is an ordinary comment.
pub fn normalize_doc_comment(raw: &str, inner: bool) -> (r: Option<String>)
    ensures
        match r {
            Some(text) => comment_documentation(raw@, inner) == Some(text@),
            None => comment_documentation(raw@, inner) is None,
        },
{
    let text = trim(raw);
    let chars = chars_of(text.as_str());
    let mark = if inner {
        '!'
    } else {
        '/'
    };
    let block_mark = if inner {
        '!'
    } else {
        '*'
    };
    let total = chars.len();
    if total >= 3 && chars[0] == '/' && chars[1] == '/' && chars[2] == mark {
        let rest = text_between(&chars, 3, total);
        proof {
            assert(rest@ =~= text@.skip(3));
        }
        return Some(trim(rest.as_str()));
    }
    if total >= 5 && chars[0] == '/' && chars[1] == '*' && chars[2] == block_mark && chars[total - 2]
        == '*' && chars[total - 1] == '/' {
        let body = text_between(&chars, 3, total - 2);
        let lines = lines_of(body.as_str());
        let ghost model = lines_from(body@, 0, Seq::empty());
        let mut out: Vec<String> = Vec::new();
        let mut i: usize = 0;
        while i < lines.len()
            invariant
                i <= lines.len(),
                texts(lines@) == model,
                out@.len() == i,
                forall|k: int| 0 <= k < i ==> (#[trigger] out@[k])@ == comment_line(model[k]),
            decreases lines.len() - i,
        {
            proof {
                assert(model[i as int] == lines@[i as int]@);
            }
            out.push(line_of_comment(lines[i].as_str()));
            i += 1;
        }
        proof {
            assert(texts(out@) =~= comment_lines(body@));
        }
        return Some(trim(join(&out, "\n").as_str()));
    }
    None
}

fn documentation_of(list: &Vec<Trivia>, inner: bool) -> (r: Vec<String>)
    ensures
        texts(r@) == documentation_from(list@, 0, inner, Seq::empty()),
{
    let mut docs: Vec<String> = Vec::new();
    let mut i: usize = 0;
    proof {
        assert(texts(docs@) =~= Seq::empty());
    }
    while i < list.len()
        invariant
            i <= list.len(),
            documentation_from(list@, i as int, inner, texts(docs@)) == documentation_from(
                list@,
                0,
                inner,
                Seq::empty(),
            ),
        decreases list.len() - i,
    {
        let piece = &list[i];
        let mut keep = false;
        match piece.kind {
            RuaTokenKind::Whitespace => {
                keep = !blank_piece(piece);
            },
            RuaTokenKind::LineComment | RuaTokenKind::BlockComment => {
                if let Some(text) = normalize_doc_comment(piece.text.as_str(), inner) {
                    let ghost before = texts(docs@);
                    docs.push(text);
                    proof {
                        assert(texts(docs@) =~= before.push(text@));
                    }
                    i += 1;
                    continue;
                }
            },
            _ => {
                docs = Vec::new();
                proof {
                    assert(texts(docs@) =~= Seq::empty());
                }
                i += 1;
                continue;
            },
        }
        if !keep {
            if inner && docs.len() > 0 {
                return docs;
            }
            docs = Vec::new();
            proof {
                assert(texts(docs@) =~= Seq::empty());
            }
        }
        i += 1;
    }
    docs
}

/// The documentation that stands right before a token.
pub fn render_leading_documentation(list: &Vec<Trivia>, inner: bool) -> (r: Option<String>)
    ensures
        match r {
            Some(text) => leading_documentation(list@, inner) == Some(text@),
            None => leading_documentation(list@, inner) is None,
        },
{
    let docs = documentation_of(list, inner);
    let text = trim(join(&docs, "\n").as_str());
    if chars_of(text.as_str()).len() == 0 {
        None
    } else {
        Some(text)
    }
}

} // verus!
