//! Text as a sequence of characters: joining, escaping, splitting and number
//! rendering.

use vstd::prelude::*;
use vstd::std_specs::iter::IteratorSpec;
use vstd::utf8::encode_utf8;

verus! {

/// `String::push` appends one character and leaves the rest as it was.
pub assume_specification[ std::string::String::push ](s: &mut std::string::String, c: char)
    ensures
        final(s)@ == old(s)@.push(c),
;

/// `str` equality holds exactly for texts with the same characters.
pub assume_specification[ <str as PartialEq>::eq ](a: &str, b: &str) -> (r: bool)
    ensures
        r == (a@ == b@),
;

/// The texts of a list of strings.
pub open spec fn texts(parts: Seq<String>) -> Seq<Seq<char>> {
    Seq::new(parts.len(), |i: int| parts[i]@)
}

/// All of `parts[from..]`, with `separator` between neighbours.
pub open spec fn join_from(parts: Seq<Seq<char>>, separator: Seq<char>, from: int) -> Seq<char>
    decreases parts.len() - from,
{
    if from >= parts.len() {
        Seq::empty()
    } else if from == parts.len() - 1 {
        parts[from]
    } else {
        parts[from] + separator + join_from(parts, separator, from + 1)
    }
}

/// The parts in order, with `separator` between neighbours.
pub open spec fn joined(parts: Seq<Seq<char>>, separator: Seq<char>) -> Seq<char> {
    join_from(parts, separator, 0)
}

/// Decimal digits of a natural number.
pub open spec fn decimal(n: nat) -> Seq<char>
    decreases n,
{
    if n < 10 {
        seq![digit_char(n)]
    } else {
        decimal(n / 10).push(digit_char(n % 10))
    }
}

/// The character of one digit in a base up to sixteen.
pub open spec fn digit_char(d: nat) -> char {
    if d < 10 {
        (('0' as u32) + d) as char
    } else {
        (('a' as u32) + (d - 10)) as char
    }
}

/// The text of one digit.
fn digit(d: u8) -> (c: char)
    requires
        d < 16,
    ensures
        c == digit_char(d as nat),
{
    if d < 10 {
        (48u8 + d) as char
    } else {
        (97u8 + (d - 10)) as char
    }
}

/// Renders a number in decimal.
pub fn decimal_text(n: u64) -> (r: String)
    ensures
        r@ == decimal(n as nat),
    decreases n,
{
    let d: u8 = (n % 10) as u8;
    let c = digit(d);
    let mut out = if n < 10 {
        String::new()
    } else {
        decimal_text(n / 10)
    };
    out.push(c);
    proof {
        if n < 10 {
            assert(out@ =~= seq![digit_char(n as nat)]);
        }
    }
    out
}

/// The two lower-case hexadecimal digits of a byte.
pub open spec fn hex_byte(b: u8) -> Seq<char> {
    seq![digit_char((b / 16) as nat), digit_char((b % 16) as nat)]
}

/// The hexadecimal digits of every byte in order.
pub open spec fn hex_bytes(bytes: Seq<u8>) -> Seq<char>
    decreases bytes.len(),
{
    if bytes.len() == 0 {
        Seq::empty()
    } else {
        hex_bytes(bytes.drop_last()) + hex_byte(bytes.last())
    }
}

/// Appends the two hexadecimal digits of a byte.
pub fn push_hex_byte(out: &mut String, b: u8)
    ensures
        final(out)@ == old(out)@ + hex_byte(b),
{
    out.push(digit(b / 16));
    out.push(digit(b % 16));
    proof {
        assert(out@ =~= old(out)@ + hex_byte(b));
    }
}

/// The characters of a text.
pub fn chars_of(s: &str) -> (r: Vec<char>)
    ensures
        r@ == s@,
{
    let mut out: Vec<char> = Vec::new();
    let mut it = s.chars();
    loop
        invariant
            out@ + it.remaining() == s@,
            it.obeys_prophetic_iter_laws(),
            it.decrease() is Some,
        ensures
            out@ == s@,
        decreases it.decrease()->0,
    {
        match it.next() {
            Some(c) => {
                out.push(c);
            },
            None => {
                break;
            },
        }
    }
    out
}

/// The text made of the characters `chars[from..to]`.
pub fn text_between(chars: &Vec<char>, from: usize, to: usize) -> (r: String)
    requires
        from <= to <= chars.len(),
    ensures
        r@ == chars@.subrange(from as int, to as int),
{
    let mut out = String::new();
    let mut i: usize = from;
    while i < to
        invariant
            from <= i <= to <= chars.len(),
            out@ == chars@.subrange(from as int, i as int),
        decreases to - i,
    {
        out.push(chars[i]);
        i += 1;
        proof {
            assert(out@ =~= chars@.subrange(from as int, i as int));
        }
    }
    out
}

/// The length of a text in UTF-8.
pub fn byte_len(s: &str) -> (n: usize)
    ensures
        n == encode_utf8(s@).len(),
{
    s.as_bytes().len()
}

/// Two texts, one behind the other.
pub fn cat2(a: &str, b: &str) -> (r: String)
    ensures
        r@ == a@ + b@,
{
    let mut out = a.to_string();
    out.append(b);
    out
}

/// Three texts, one behind the other.
pub fn cat3(a: &str, b: &str, c: &str) -> (r: String)
    ensures
        r@ == a@ + b@ + c@,
{
    let mut out = a.to_string();
    out.append(b);
    out.append(c);
    out
}

/// Four texts, one behind the other.
pub fn cat4(a: &str, b: &str, c: &str, d: &str) -> (r: String)
    ensures
        r@ == a@ + b@ + c@ + d@,
{
    let mut out = a.to_string();
    out.append(b);
    out.append(c);
    out.append(d);
    out
}

/// Five texts, one behind the other.
pub fn cat5(a: &str, b: &str, c: &str, d: &str, e: &str) -> (r: String)
    ensures
        r@ == a@ + b@ + c@ + d@ + e@,
{
    let mut out = cat4(a, b, c, d);
    out.append(e);
    out
}

/// Whether two texts are the same.
pub fn same_text(a: &str, b: &str) -> (r: bool)
    ensures
        r == (a@ == b@),
{
    *a == *b
}

/// Joins the parts with a separator between neighbours.
pub fn join(parts: &Vec<String>, separator: &str) -> (r: String)
    ensures
        r@ == joined(texts(parts@), separator@),
{
    let mut out = String::new();
    let mut i: usize = 0;
    while i < parts.len()
        invariant
            i <= parts.len(),
            out@ + join_from(texts(parts@), separator@, i as int) == joined(
                texts(parts@),
                separator@,
            ),
        decreases parts.len() - i,
    {
        let ghost before = out@;
        out.append(parts[i].as_str());
        if i + 1 < parts.len() {
            out.append(separator);
        }
        i += 1;
        proof {
            let all = texts(parts@);
            assert(all[i - 1] == parts@[i - 1]@);
            assert(out@ + join_from(all, separator@, i as int) =~= before + join_from(
                all,
                separator@,
                i - 1,
            ));
        }
    }
    proof {
        assert(out@ + Seq::<char>::empty() =~= out@);
    }
    out
}

/// A copy of a list of strings.
pub fn copy_texts(list: &Vec<String>) -> (r: Vec<String>)
    ensures
        r@ == list@,
        texts(r@) == texts(list@),
{
    let mut out: Vec<String> = Vec::new();
    let mut i: usize = 0;
    while i < list.len()
        invariant
            i <= list.len(),
            out@ == list@.subrange(0, i as int),
        decreases list.len() - i,
    {
        out.push(list[i].clone());
        i += 1;
        proof {
            assert(out@ =~= list@.subrange(0, i as int));
        }
    }
    proof {
        assert(out@ =~= list@);
    }
    out
}


/// The number of characters up to and with the last `c` among the first `n`.
pub open spec fn end_of_last(s: Seq<char>, c: char, n: int) -> int
    decreases n,
{
    if n <= 0 || n > s.len() {
        0
    } else if s[n - 1] == c {
        n
    } else {
        end_of_last(s, c, n - 1)
    }
}

/// What follows the last `c`; the whole text where there is none.
pub open spec fn after_last(s: Seq<char>, c: char) -> Seq<char> {
    s.skip(end_of_last(s, c, s.len() as int))
}

/// What follows the last `c`; the whole text where there is none.
pub fn tail_after_last(s: &str, c: char) -> (r: String)
    ensures
        r@ == after_last(s@, c),
{
    let chars = chars_of(s);
    let mut n: usize = chars.len();
    while n > 0 && chars[n - 1] != c
        invariant
            n <= chars.len(),
            chars@ == s@,
            end_of_last(s@, c, n as int) == end_of_last(s@, c, s@.len() as int),
        decreases n,
    {
        n -= 1;
    }
    proof {
        assert(s@.subrange(n as int, s@.len() as int) =~= s@.skip(n as int));
    }
    text_between(&chars, n, chars.len())
}

/// Decimal digits of an integer, with a sign where it is negative.
pub open spec fn signed_decimal(n: int) -> Seq<char> {
    if n < 0 {
        seq!['-'] + decimal((-n) as nat)
    } else {
        decimal(n as nat)
    }
}

/// Renders an integer in decimal.
pub fn signed_text(n: i64) -> (r: String)
    ensures
        r@ == signed_decimal(n as int),
{
    if n < 0 {
        let mut out = String::new();
        out.push('-');
        let magnitude: u64 = (-(n + 1)) as u64 + 1;
        out.append(decimal_text(magnitude).as_str());
        proof {
            assert(out@ =~= seq!['-'] + decimal((-n) as nat));
        }
        out
    } else {
        decimal_text(n as u64)
    }
}

/// The text without any `c`.
pub open spec fn without(s: Seq<char>, c: char) -> Seq<char>
    decreases s.len(),
{
    if s.len() == 0 {
        Seq::empty()
    } else if s.last() == c {
        without(s.drop_last(), c)
    } else {
        without(s.drop_last(), c).push(s.last())
    }
}

/// The text without any `c`.
pub fn text_without(s: &str, c: char) -> (r: String)
    ensures
        r@ == without(s@, c),
{
    let chars = chars_of(s);
    let mut out = String::new();
    let mut i: usize = 0;
    while i < chars.len()
        invariant
            i <= chars.len(),
            chars@ == s@,
            out@ == without(s@.take(i as int), c),
        decreases chars.len() - i,
    {
        if chars[i] != c {
            out.push(chars[i]);
        }
        i += 1;
        proof {
            assert(s@.take(i as int).drop_last() =~= s@.take(i - 1));
        }
    }
    proof {
        assert(s@.take(i as int) =~= s@);
    }
    out
}

} // verus!
