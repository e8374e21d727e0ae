//! Where every declaration lives in the generated Lua: collision-free names for
//! modules, definitions, locals, runtime imports and temporaries.

use vstd::prelude::*;
use vstd::utf8::{decode_utf8, encode_utf8, encode_utf8_decode_utf8};

use crate::hir::{
    DefData, DefId, DefKind, ExternId, LocalData, LocalId, ModuleData, ModuleId, ResolvedHir,
    ResolvedTarget,
};
use crate::lua_ir::{
    is_identifier, is_keyword, is_name_part, keyword, m_field, m_name, word, Expr, ExprModel,
    FunctionTarget, TargetModel,
};
use crate::table::{Key, KeySet, Table};
use crate::text::{
    cat2, cat3, chars_of, copy_texts, decimal, decimal_text, digit_char, hex_byte, hex_bytes, join,
    joined, push_hex_byte, same_text, texts,
};
use crate::typed::TypedProgram;

verus! {

// ---------------------------------------------------------------------------
// Source names as Lua identifiers.
// ---------------------------------------------------------------------------

/// Whether a text begins with another.
pub open spec fn begins_with(text: Seq<char>, prefix: Seq<char>) -> bool {
    prefix.len() <= text.len() && text.take(prefix.len() as int) == prefix
}

/// Tests whether a text begins with another.
pub fn starts_with(text: &str, prefix: &str) -> (r: bool)
    ensures
        r == begins_with(text@, prefix@),
{
    let whole = chars_of(text);
    let head = chars_of(prefix);
    if head.len() > whole.len() {
        return false;
    }
    let mut i: usize = 0;
    while i < head.len()
        invariant
            i <= head.len() <= whole.len(),
            head@ == prefix@,
            whole@ == text@,
            forall|k: int| 0 <= k < i ==> #[trigger] whole@[k] == head@[k],
        decreases head.len() - i,
    {
        if whole[i] != head[i] {
            proof {
                assert(text@.take(prefix@.len() as int)[i as int] != prefix@[i as int]);
            }
            return false;
        }
        i += 1;
    }
    proof {
        assert(text@.take(prefix@.len() as int) =~= prefix@);
    }
    true
}

/// A name that needs no encoding: a Lua identifier outside the name spaces of
/// the compiler.
pub open spec fn is_plain(name: Seq<char>) -> bool {
    &&& is_identifier(name)
    &&& !begins_with(name, "__rua_"@)
    &&& !begins_with(name, "__t"@)
    &&& name != "rt"@
}

/// The Lua identifier of a source name.
pub open spec fn identifier_of(name: Seq<char>) -> Seq<char> {
    if is_plain(name) {
        name
    } else {
        "__rua_user_"@ + hex_bytes(encode_utf8(name))
    }
}

/// Encodes a source name as a Lua identifier. Plain names stay as they are; all
/// others are spelled out in hexadecimal under a prefix that no plain name has.
pub fn user_identifier(name: &str) -> (r: String)
    ensures
        r@ == identifier_of(name@),
        is_identifier(r@),
{
    proof {
        law_user_identifier_is_lua_safe(name@);
    }
    if word(name) && !keyword(name) && !starts_with(name, "__rua_") && !starts_with(name, "__t")
        && !same_text(name, "rt") {
        return name.to_string();
    }
    let mut encoded = "__rua_user_".to_string();
    let bytes = name.as_bytes();
    let mut i: usize = 0;
    proof {
        assert(encoded@ =~= "__rua_user_"@ + hex_bytes(bytes@.take(0)));
    }
    while i < bytes.len()
        invariant
            i <= bytes.len(),
            encoded@ == "__rua_user_"@ + hex_bytes(bytes@.take(i as int)),
        decreases bytes.len() - i,
    {
        push_hex_byte(&mut encoded, bytes[i]);
        i += 1;
        proof {
            let head = bytes@.take(i as int);
            assert(head.drop_last() =~= bytes@.take(i - 1));
            assert(encoded@ =~= "__rua_user_"@ + hex_bytes(head));
        }
    }
    proof {
        assert(bytes@.take(i as int) =~= bytes@);
    }
    encoded
}

/// Every hexadecimal digit is a name character.
proof fn lemma_hex_is_name(bytes: Seq<u8>)
    ensures
        forall|i: int|
            0 <= i < hex_bytes(bytes).len() ==> is_name_part(#[trigger] hex_bytes(bytes)[i]),
        hex_bytes(bytes).len() == 2 * bytes.len(),
    decreases bytes.len(),
{
    if bytes.len() > 0 {
        lemma_hex_is_name(bytes.drop_last());
        let b = bytes.last();
        assert(is_name_part(digit_char((b / 16) as nat)));
        assert(is_name_part(digit_char((b % 16) as nat)));
    }
}

/// A text that starts with an underscore is no reserved word.
proof fn lemma_underscore_is_not_keyword(text: Seq<char>)
    requires
        text.len() > 0,
        text[0] == '_',
    ensures
        !is_keyword(text),
{
    reveal_strlit("and");
    reveal_strlit("break");
    reveal_strlit("do");
    reveal_strlit("else");
    reveal_strlit("elseif");
    reveal_strlit("end");
    reveal_strlit("false");
    reveal_strlit("for");
    reveal_strlit("function");
    reveal_strlit("goto");
    reveal_strlit("if");
    reveal_strlit("in");
    reveal_strlit("local");
    reveal_strlit("nil");
    reveal_strlit("not");
    reveal_strlit("or");
    reveal_strlit("repeat");
    reveal_strlit("return");
    reveal_strlit("then");
    reveal_strlit("true");
    reveal_strlit("until");
    reveal_strlit("while");
}

/// Every source name becomes a Lua identifier, and none becomes a name of the
/// compiler's own: `rt` or a temporary.
pub proof fn law_user_identifier_is_lua_safe(name: Seq<char>)
    ensures
        is_identifier(identifier_of(name)),
        identifier_of(name) != "rt"@,
        !begins_with(identifier_of(name), "__t"@),
{
    if !is_plain(name) {
        let hex = hex_bytes(encode_utf8(name));
        let id = identifier_of(name);
        reveal_strlit("__rua_user_");
        reveal_strlit("rt");
        reveal_strlit("__t");
        lemma_hex_is_name(encode_utf8(name));
        assert(forall|i: int| 0 <= i < id.len() ==> is_name_part(#[trigger] id[i])) by {
            assert forall|i: int| 0 <= i < id.len() implies is_name_part(#[trigger] id[i]) by {
                if i >= 11 {
                    assert(id[i] == hex[i - 11]);
                } else {
                    assert(id[i] == "__rua_user_"@[i]);
                }
            }
        }
        assert(id[0] == '_');
        lemma_underscore_is_not_keyword(id);
        assert(id[2] == 'r');
        assert("__t"@[2] == 't');
        if begins_with(id, "__t"@) {
            assert(id.take(3)[2] == "__t"@[2]);
        }
    }
}

/// The digits of a byte determine it.
proof fn lemma_hex_byte_injective(a: u8, b: u8)
    requires
        hex_byte(a) == hex_byte(b),
    ensures
        a == b,
{
    assert(hex_byte(a)[0] == hex_byte(b)[0]);
    assert(hex_byte(a)[1] == hex_byte(b)[1]);
    assert((a / 16) < 16 && (b / 16) < 16);
    lemma_digit_injective((a / 16) as nat, (b / 16) as nat);
    lemma_digit_injective((a % 16) as nat, (b % 16) as nat);
    assert(a == 16 * (a / 16) + a % 16);
    assert(b == 16 * (b / 16) + b % 16);
}

/// Digits of different value look different.
proof fn lemma_digit_injective(a: nat, b: nat)
    requires
        a < 16,
        b < 16,
        digit_char(a) == digit_char(b),
    ensures
        a == b,
{
}

/// The digits of a byte sequence determine it.
proof fn lemma_hex_injective(a: Seq<u8>, b: Seq<u8>)
    requires
        hex_bytes(a) == hex_bytes(b),
    ensures
        a == b,
    decreases a.len(),
{
    lemma_hex_is_name(a);
    lemma_hex_is_name(b);
    assert(a.len() == b.len());
    if a.len() > 0 {
        let n = hex_bytes(a).len();
        let ha = hex_bytes(a.drop_last());
        let hb = hex_bytes(b.drop_last());
        lemma_hex_is_name(a.drop_last());
        lemma_hex_is_name(b.drop_last());
        assert(hex_bytes(a).subrange(0, n - 2) =~= ha);
        assert(hex_bytes(b).subrange(0, n - 2) =~= hb);
        assert(hex_bytes(a).subrange(n - 2, n as int) =~= hex_byte(a.last()));
        assert(hex_bytes(b).subrange(n - 2, n as int) =~= hex_byte(b.last()));
        lemma_hex_injective(a.drop_last(), b.drop_last());
        lemma_hex_byte_injective(a.last(), b.last());
        assert(a =~= a.drop_last().push(a.last()));
        assert(b =~= b.drop_last().push(b.last()));
    } else {
        assert(a =~= b);
    }
}

/// An encoded name is no plain name.
proof fn lemma_encoded_is_not_plain(name: Seq<char>)
    ensures
        !is_plain("__rua_user_"@ + hex_bytes(encode_utf8(name))),
{
    let id = "__rua_user_"@ + hex_bytes(encode_utf8(name));
    reveal_strlit("__rua_user_");
    reveal_strlit("__rua_");
    assert(id.take(6) =~= "__rua_"@);
}

/// Different source names become different Lua identifiers.
pub proof fn law_user_identifier_is_injective(a: Seq<char>, b: Seq<char>)
    requires
        identifier_of(a) == identifier_of(b),
    ensures
        a == b,
{
    lemma_encoded_is_not_plain(a);
    lemma_encoded_is_not_plain(b);
    if !is_plain(a) && !is_plain(b) {
        let p = "__rua_user_"@;
        let ha = hex_bytes(encode_utf8(a));
        let hb = hex_bytes(encode_utf8(b));
        assert(identifier_of(a).skip(p.len() as int) =~= ha);
        assert(identifier_of(b).skip(p.len() as int) =~= hb);
        lemma_hex_injective(encode_utf8(a), encode_utf8(b));
        encode_utf8_decode_utf8(a);
        encode_utf8_decode_utf8(b);
        assert(decode_utf8(encode_utf8(a)) == decode_utf8(encode_utf8(b)));
    }
}

// ---------------------------------------------------------------------------
// Temporaries.
// ---------------------------------------------------------------------------

/// The name of the `n`-th temporary.
pub open spec fn temporary_name(n: nat) -> Seq<char> {
    "__t"@ + decimal(n)
}

/// Different numbers have different digits.
proof fn lemma_decimal_injective(a: nat, b: nat)
    requires
        decimal(a) == decimal(b),
    ensures
        a == b,
    decreases a,
{
    lemma_decimal_len(a);
    lemma_decimal_len(b);
    if a < 10 && b < 10 {
        assert(decimal(a) == seq![digit_char(a)]);
        assert(decimal(b) == seq![digit_char(b)]);
        assert(decimal(a)[0] == digit_char(a) && decimal(b)[0] == digit_char(b));
        lemma_digit_injective(a, b);
    } else if a >= 10 && b >= 10 {
        assert(decimal(a).drop_last() =~= decimal(a / 10));
        assert(decimal(b).drop_last() =~= decimal(b / 10));
        assert(decimal(a).last() == digit_char(a % 10));
        assert(decimal(b).last() == digit_char(b % 10));
        lemma_decimal_injective(a / 10, b / 10);
        lemma_digit_injective(a % 10, b % 10);
    }
}

proof fn lemma_decimal_len(a: nat)
    ensures
        decimal(a).len() >= 1,
        a >= 10 ==> decimal(a).len() >= 2,
        forall|i: int| 0 <= i < decimal(a).len() ==> is_name_part(#[trigger] decimal(a)[i]),
    decreases a,
{
    if a >= 10 {
        lemma_decimal_len(a / 10);
        assert(is_name_part(digit_char(a % 10)));
    } else {
        assert(is_name_part(digit_char(a)));
    }
}

/// Temporaries are Lua identifiers, they differ from each other, and no source
/// name is encoded as one of them.
pub proof fn law_temporaries_are_fresh(a: nat, b: nat, name: Seq<char>)
    ensures
        is_identifier(temporary_name(a)),
        temporary_name(a) == temporary_name(b) ==> a == b,
        identifier_of(name) != temporary_name(a),
{
    reveal_strlit("__t");
    let t = temporary_name(a);
    lemma_decimal_len(a);
    assert forall|i: int| 0 <= i < t.len() implies is_name_part(#[trigger] t[i]) by {
        if i >= 3 {
            assert(t[i] == decimal(a)[i - 3]);
        }
    }
    lemma_underscore_is_not_keyword(t);
    if temporary_name(a) == temporary_name(b) {
        assert(temporary_name(a).skip(3) =~= decimal(a));
        assert(temporary_name(b).skip(3) =~= decimal(b));
        lemma_decimal_injective(a, b);
    }
    law_user_identifier_is_lua_safe(name);
    assert(t.take(3) =~= "__t"@);
}

// ---------------------------------------------------------------------------
// Places.
// ---------------------------------------------------------------------------

/// A name, or a path of fields below one.
#[derive(Debug)]
pub struct Place {
    pub root: String,
    pub fields: Vec<String>,
}

pub struct PlaceModel {
    pub root: Seq<char>,
    pub fields: Seq<Seq<char>>,
}

impl PlaceModel {
    /// A bare name.
    pub open spec fn named(name: Seq<char>) -> PlaceModel {
        PlaceModel { root: name, fields: Seq::empty() }
    }

    /// A field of the place.
    pub open spec fn field(self, field: Seq<char>) -> PlaceModel {
        PlaceModel { root: self.root, fields: self.fields.push(field) }
    }

    /// The expression that reads the place.
    pub open spec fn expression(self) -> ExprModel
        decreases self.fields.len(),
    {
        if self.fields.len() == 0 {
            m_name(self.root)
        } else {
            m_field(
                PlaceModel { root: self.root, fields: self.fields.drop_last() }.expression(),
                self.fields.last(),
            )
        }
    }

    /// The names along the place.
    pub open spec fn segments(self) -> Seq<Seq<char>> {
        seq![self.root] + self.fields
    }

    /// The dotted text of the place.
    pub open spec fn text(self) -> Seq<char> {
        joined(self.segments(), "."@)
    }

    /// The target that defines a function at the place.
    pub open spec fn function_target(self) -> TargetModel {
        TargetModel::Path(self.segments())
    }

    /// The target that defines a function or, with a receiver, a method there.
    pub open spec fn callable_target(self, receiver: bool) -> TargetModel {
        if receiver {
            TargetModel::Method {
                receiver: self.segments().drop_last(),
                method: self.segments().last(),
            }
        } else {
            self.function_target()
        }
    }

    /// Whether every name along the place is a Lua identifier.
    pub open spec fn is_valid(self) -> bool {
        &&& is_identifier(self.root)
        &&& forall|i: int| 0 <= i < self.fields.len() ==> is_identifier(#[trigger] self.fields[i])
    }
}

impl Place {
    /// The place over mathematical texts.
    pub open spec fn view(&self) -> PlaceModel {
        PlaceModel { root: self.root@, fields: texts(self.fields@) }
    }

    fn named(name: String) -> (r: Self)
        ensures
            r@ == PlaceModel::named(name@),
    {
        let r = Place { root: name, fields: Vec::new() };
        proof {
            assert(r@.fields =~= Seq::empty());
        }
        r
    }

    /// A copy of the place.
    pub fn copy(&self) -> (r: Self)
        ensures
            r@ == self@,
    {
        Place { root: self.root.clone(), fields: copy_texts(&self.fields) }
    }

    /// A field of the place.
    pub fn field(&self, field: &str) -> (r: Self)
        ensures
            r@ == self@.field(field@),
    {
        let mut r = self.copy();
        let ghost before = r@;
        r.fields.push(field.to_string());
        proof {
            assert(r@.fields =~= before.fields.push(field@));
        }
        r
    }

    /// The expression that reads the place.
    pub fn expression(&self) -> (r: Expr)
        ensures
            r.model() == self@.expression(),
    {
        let mut out = Expr::Name(self.root.clone());
        let mut i: usize = 0;
        proof {
            assert(self@.fields.take(0) =~= Seq::empty());
        }
        while i < self.fields.len()
            invariant
                i <= self.fields.len(),
                out.model() == (PlaceModel {
                    root: self@.root,
                    fields: self@.fields.take(i as int),
                }).expression(),
            decreases self.fields.len() - i,
        {
            out = Expr::Field { base: Box::new(out), name: self.fields[i].clone() };
            i += 1;
            proof {
                let head = self@.fields.take(i as int);
                assert(head.drop_last() =~= self@.fields.take(i - 1));
                assert(head.last() == self.fields@[i - 1]@);
            }
        }
        proof {
            assert(self@.fields.take(i as int) =~= self@.fields);
        }
        out
    }

    /// The names along the place.
    pub fn segments(&self) -> (r: Vec<String>)
        ensures
            texts(r@) == self@.segments(),
            r@.len() == self@.fields.len() + 1,
    {
        let mut r: Vec<String> = Vec::new();
        r.push(self.root.clone());
        let mut i: usize = 0;
        proof {
            assert(texts(r@) =~= seq![self@.root] + self@.fields.take(0));
        }
        while i < self.fields.len()
            invariant
                i <= self.fields.len(),
                r@.len() == i + 1,
                texts(r@) == seq![self@.root] + self@.fields.take(i as int),
            decreases self.fields.len() - i,
        {
            let ghost before = r@;
            r.push(self.fields[i].clone());
            i += 1;
            proof {
                assert(texts(r@) =~= texts(before).push(self@.fields[i - 1]));
                assert(self@.fields.take(i as int) =~= self@.fields.take(i - 1).push(
                    self@.fields[i - 1],
                ));
                assert(texts(r@) =~= seq![self@.root] + self@.fields.take(i as int));
            }
        }
        proof {
            assert(self@.fields.take(i as int) =~= self@.fields);
        }
        r
    }

    /// The dotted text of the place.
    pub fn text(&self) -> (r: String)
        ensures
            r@ == self@.text(),
    {
        join(&self.segments(), ".")
    }

    /// The target that defines a function at the place.
    pub fn function_target(&self) -> (r: FunctionTarget)
        ensures
            r.model() == self@.function_target(),
    {
        FunctionTarget::Path(self.segments())
    }

    /// The target that defines a function or, with a receiver, a method there.
    pub fn callable_target(&self, receiver: bool) -> (r: FunctionTarget)
        ensures
            r.model() == self@.callable_target(receiver),
    {
        if receiver {
            let mut owner = self.segments();
            let ghost all = owner@;
            match owner.pop() {
                Some(method) => {
                    proof {
                        assert(texts(owner@) =~= texts(all).drop_last());
                    }
                    FunctionTarget::Method { receiver: owner, method }
                },
                None => FunctionTarget::Path(owner),
            }
        } else {
            self.function_target()
        }
    }

    /// Whether two places are the same.
    pub fn same_place(&self, other: &Place) -> (r: bool)
        ensures
            r == (self@ == other@),
    {
        if !same_text(self.root.as_str(), other.root.as_str()) {
            return false;
        }
        if self.fields.len() != other.fields.len() {
            proof {
                assert(self@.fields.len() != other@.fields.len());
            }
            return false;
        }
        let mut i: usize = 0;
        while i < self.fields.len()
            invariant
                i <= self.fields.len() == other.fields.len(),
                forall|k: int| 0 <= k < i ==> #[trigger] self@.fields[k] == other@.fields[k],
            decreases self.fields.len() - i,
        {
            if !same_text(self.fields[i].as_str(), other.fields[i].as_str()) {
                proof {
                    assert(self@.fields[i as int] != other@.fields[i as int]);
                }
                return false;
            }
            i += 1;
        }
        proof {
            assert(self@.fields =~= other@.fields);
        }
        true
    }
}


// ---------------------------------------------------------------------------
// Free names.
// ---------------------------------------------------------------------------

/// A name with underscores behind it.
pub open spec fn padded(base: Seq<char>, k: nat) -> Seq<char> {
    base + Seq::new(k, |i: int| '_')
}

/// Whether `k` is the least number of underscores that makes the name free.
pub open spec fn is_first_free(names: Set<Seq<char>>, base: Seq<char>, k: nat) -> bool {
    &&& !names.contains(padded(base, k))
    &&& forall|j: nat| j < k ==> names.contains(#[trigger] padded(base, j))
}

/// The first name of `base`, `base_`, `base__` and so on that is free.
pub open spec fn free_name(names: Set<Seq<char>>, base: Seq<char>) -> Seq<char> {
    padded(base, choose|k: nat| is_first_free(names, base, k))
}

proof fn lemma_free_name(names: Set<Seq<char>>, base: Seq<char>, k: nat)
    requires
        is_first_free(names, base, k),
    ensures
        free_name(names, base) == padded(base, k),
{
    let c = choose|k: nat| is_first_free(names, base, k);
    assert(is_first_free(names, base, c));
    if c < k {
        assert(names.contains(padded(base, c)));
    }
    if k < c {
        assert(names.contains(padded(base, k)));
    }
}

/// The length of the longest name in a list of scoped names.
spec fn longest(items: Seq<(ModuleId, String)>) -> nat
    decreases items.len(),
{
    if items.len() == 0 {
        0
    } else if items.last().1@.len() > longest(items.drop_last()) {
        items.last().1@.len()
    } else {
        longest(items.drop_last())
    }
}

proof fn lemma_longest(items: Seq<(ModuleId, String)>, i: int)
    requires
        0 <= i < items.len(),
    ensures
        items[i].1@.len() <= longest(items),
    decreases items.len(),
{
    if i < items.len() - 1 {
        lemma_longest(items.drop_last(), i);
    }
}

/// The names that are in use in one scope.
pub open spec fn names_in(used: Set<(ModuleId, Seq<char>)>, scope: ModuleId) -> Set<Seq<char>> {
    Set::new(|n: Seq<char>| used.contains((scope, n)))
}

/// Finds the first free name in a scope.
fn find_free(used: &KeySet<(ModuleId, String)>, scope: ModuleId, base: String) -> (r: String)
    ensures
        r@ == free_name(names_in(used@, scope), base@),
        !used@.contains((scope, r@)),
        exists|k: nat| r@ == #[trigger] padded(base@, k),
{
    let ghost start = base@;
    let ghost names = names_in(used@, scope);
    let ghost mut k: nat = 0;
    let mut pair = (scope, base);
    proof {
        assert(padded(start, 0) =~= start);
    }
    while used.has(&pair)
        invariant
            names == names_in(used@, scope),
            pair.0 == scope,
            pair.1@ == padded(start, k),
            forall|j: nat| j < k ==> names.contains(#[trigger] padded(start, j)),
        decreases longest(used.items@) + 1 - pair.1@.len(),
    {
        proof {
            assert(used@.contains(pair.key()));
            let i = choose|i: int|
                0 <= i < used.items@.len() && (#[trigger] used.items@[i]).key() == pair.key();
            lemma_longest(used.items@, i);
            assert(names.contains(padded(start, k)));
            assert(padded(start, k + 1) =~= padded(start, k).push('_'));
        }
        pair.1.push('_');
        proof {
            k = k + 1;
        }
    }
    proof {
        assert(!used@.contains(pair.key()));
        assert(is_first_free(names, start, k));
        lemma_free_name(names, start, k);
    }
    pair.1
}

/// The name of a declaration in a scope, with the names that are then in use:
/// the encoded source name, or with the identity behind it where that is taken.
pub open spec fn allocated(
    used: Set<(ModuleId, Seq<char>)>,
    scope: ModuleId,
    source: Seq<char>,
    identity: nat,
) -> Option<(Set<(ModuleId, Seq<char>)>, Seq<char>)> {
    let candidate = identifier_of(source);
    let unique = candidate + "__"@ + decimal(identity);
    if !used.contains((scope, candidate)) {
        Some((used.insert((scope, candidate)), candidate))
    } else if !used.contains((scope, unique)) {
        Some((used.insert((scope, unique)), unique))
    } else {
        None
    }
}

/// An allocated name was free, and it is a Lua identifier.
pub proof fn law_allocated_names_are_fresh(
    used: Set<(ModuleId, Seq<char>)>,
    scope: ModuleId,
    source: Seq<char>,
    identity: nat,
)
    requires
        allocated(used, scope, source, identity) is Some,
    ensures
        ({
            let (after, name) = allocated(used, scope, source, identity)->0;
            &&& !used.contains((scope, name))
            &&& after == used.insert((scope, name))
            &&& is_identifier(name)
        }),
{
    law_user_identifier_is_lua_safe(source);
    let candidate = identifier_of(source);
    lemma_suffixed_identifier(candidate, "__"@, identity);
}

/// A Lua identifier with a word and a number behind it is one too.
proof fn lemma_suffixed_identifier(name: Seq<char>, middle: Seq<char>, number: nat)
    requires
        is_identifier(name),
        middle == "__"@ || middle == "_"@,
    ensures
        is_identifier(name + middle + decimal(number)),
{
    let id = name + middle + decimal(number);
    reveal_strlit("__");
    reveal_strlit("_");
    lemma_decimal_len(number);
    assert forall|i: int| 0 <= i < id.len() implies is_name_part(#[trigger] id[i]) by {
        if i < name.len() {
            assert(id[i] == name[i]);
        } else if i < name.len() + middle.len() {
            assert(id[i] == middle[i - name.len()]);
        } else {
            assert(id[i] == decimal(number)[i - name.len() - middle.len()]);
        }
    }
    assert(id[name.len() as int] == '_');
    lemma_inner_underscore_is_not_keyword(id, name.len() as int);
}

/// No reserved word holds an underscore.
proof fn lemma_inner_underscore_is_not_keyword(text: Seq<char>, at: int)
    requires
        0 <= at < text.len(),
        text[at] == '_',
    ensures
        !is_keyword(text),
{
    reveal_strlit("and");
    reveal_strlit("break");
    reveal_strlit("do");
    reveal_strlit("else");
    reveal_strlit("elseif");
    reveal_strlit("end");
    reveal_strlit("false");
    reveal_strlit("for");
    reveal_strlit("function");
    reveal_strlit("goto");
    reveal_strlit("if");
    reveal_strlit("in");
    reveal_strlit("local");
    reveal_strlit("nil");
    reveal_strlit("not");
    reveal_strlit("or");
    reveal_strlit("repeat");
    reveal_strlit("return");
    reveal_strlit("then");
    reveal_strlit("true");
    reveal_strlit("until");
    reveal_strlit("while");
}

fn allocate_name(
    used: &mut KeySet<(ModuleId, String)>,
    scope: ModuleId,
    source_name: &str,
    identity: u32,
) -> (r: Option<String>)
    ensures
        match allocated(old(used)@, scope, source_name@, identity as nat) {
            Some((after, name)) => r matches Some(n) && n@ == name && final(used)@ == after,
            None => r is None,
        },
{
    let candidate = user_identifier(source_name);
    if used.insert((scope, candidate.clone())) {
        return Some(candidate);
    }
    let unique = cat3(candidate.as_str(), "__", decimal_text(identity as u64).as_str());
    proof {
        assert(used@ =~= old(used)@);
    }
    if used.insert((scope, unique.clone())) {
        Some(unique)
    } else {
        None
    }
}

/// The encoded names along a path.
pub open spec fn encoded_path(segments: Seq<Seq<char>>) -> Seq<Seq<char>> {
    Seq::new(segments.len(), |i: int| identifier_of(segments[i]))
}

/// The local name of a required module, with the names that are then in use:
/// its path, or with the identity behind it where that is taken.
pub open spec fn dependency_alias(
    segments: Seq<Seq<char>>,
    identity: nat,
    used: Set<Seq<char>>,
) -> Option<(Set<Seq<char>>, Seq<char>)> {
    let candidate = "__rua_dep_"@ + joined(encoded_path(segments), "_"@);
    let unique = candidate + "_"@ + decimal(identity);
    if !used.contains(candidate) {
        Some((used.insert(candidate), candidate))
    } else if !used.contains(unique) {
        Some((used.insert(unique), unique))
    } else {
        None
    }
}

/// Allocates the local name of a required module, where one is free.
fn try_dependency_alias(segments: &Vec<String>, identity: u32, used: &mut KeySet<String>) -> (r: Option<
    String,
>)
    ensures
        match dependency_alias(texts(segments@), identity as nat, old(used)@) {
            Some((after, name)) => r matches Some(n) && n@ == name && final(used)@ == after,
            None => r is None,
        },
{
    let mut encoded: Vec<String> = Vec::new();
    let mut i: usize = 0;
    while i < segments.len()
        invariant
            i <= segments.len(),
            encoded@.len() == i,
            forall|k: int| 0 <= k < i ==> (#[trigger] encoded@[k])@ == identifier_of(segments@[k]@),
        decreases segments.len() - i,
    {
        encoded.push(user_identifier(segments[i].as_str()));
        i += 1;
    }
    proof {
        assert(texts(encoded@) =~= encoded_path(texts(segments@)));
    }
    let candidate = cat2("__rua_dep_", join(&encoded, "_").as_str());
    if used.insert(candidate.clone()) {
        return Some(candidate);
    }
    let unique = cat3(candidate.as_str(), "_", decimal_text(identity as u64).as_str());
    proof {
        assert(used@ =~= old(used)@);
    }
    if used.insert(unique.clone()) {
        Some(unique)
    } else {
        None
    }
}

/// The local name of a required module.
pub fn module_dependency_alias(
    segments: &Vec<String>,
    identity: u32,
    used: &mut KeySet<String>,
) -> (r: String)
    requires
        dependency_alias(texts(segments@), identity as nat, old(used)@) is Some,
    ensures
        r@ == (dependency_alias(texts(segments@), identity as nat, old(used)@)->0).1,
        final(used)@ == (dependency_alias(texts(segments@), identity as nat, old(used)@)->0).0,
{
    match try_dependency_alias(segments, identity, used) {
        Some(name) => name,
        None => String::new(),
    }
}

/// The local name of a required module was free before.
pub proof fn law_dependency_aliases_are_fresh(
    segments: Seq<Seq<char>>,
    identity: nat,
    used: Set<Seq<char>>,
)
    requires
        dependency_alias(segments, identity, used) is Some,
    ensures
        !used.contains((dependency_alias(segments, identity, used)->0).1),
        (dependency_alias(segments, identity, used)->0).0 == used.insert(
            (dependency_alias(segments, identity, used)->0).1,
        ),
{
}

// ---------------------------------------------------------------------------
// The layout of a program.
// ---------------------------------------------------------------------------

/// The keys of a table with the models of their places.
pub open spec fn places<K: Key>(table: Table<K, Place>) -> Map<K::Model, PlaceModel> {
    Map::new(|k: K::Model| table.at(k) is Some, |k: K::Model| (table.at(k)->0)@)
}

proof fn lemma_places_insert<K: Key>(
    before: Table<K, Place>,
    after: Table<K, Place>,
    key: K::Model,
    place: Place,
)
    requires
        after@ == before@.insert(key, place),
    ensures
        places(after) == places(before).insert(key, place@),
{
    crate::table::lemma_insert_at(before, after, key, place);
    assert(places(after) =~= places(before).insert(key, place@));
}

/// The keys of a table with the texts of their values.
pub open spec fn names_of<K: Key>(table: Table<K, String>) -> Map<K::Model, Seq<char>> {
    Map::new(|k: K::Model| table.at(k) is Some, |k: K::Model| (table.at(k)->0)@)
}

proof fn lemma_names_insert<K: Key>(
    before: Table<K, String>,
    after: Table<K, String>,
    key: K::Model,
    name: String,
)
    requires
        after@ == before@.insert(key, name),
    ensures
        names_of(after) == names_of(before).insert(key, name@),
{
    crate::table::lemma_insert_at(before, after, key, name);
    assert(names_of(after) =~= names_of(before).insert(key, name@));
}

/// What a layout is for: the whole program in one file, or one module whose
/// table has the given name.
pub enum LayoutMode {
    Bundle,
    Module { current: ModuleId, table: Seq<char> },
}

/// A layout in the making.
pub struct Build {
    pub used: Set<(ModuleId, Seq<char>)>,
    pub aliases: Set<Seq<char>>,
    pub roots: Set<Seq<char>>,
    pub modules: Map<ModuleId, PlaceModel>,
    pub definitions: Map<DefId, PlaceModel>,
    pub externs: Map<ExternId, PlaceModel>,
    pub locals: Map<LocalId, PlaceModel>,
    pub local_names: Map<(ModuleId, Seq<char>), Seq<char>>,
}

/// One entry of a map, where it is there.
pub open spec fn entry<K, V>(map: Map<K, V>, key: K) -> Option<V> {
    if map.dom().contains(key) {
        Some(map[key])
    } else {
        None
    }
}

impl Build {
    /// Nothing allocated; the module table of a separate module is taken.
    pub open spec fn initial(mode: LayoutMode) -> Build {
        Build {
            used: Set::empty(),
            aliases: match mode {
                LayoutMode::Bundle => Set::empty(),
                LayoutMode::Module { table, .. } => Set::empty().insert(table),
            },
            roots: Set::empty(),
            modules: Map::empty(),
            definitions: Map::empty(),
            externs: Map::empty(),
            locals: Map::empty(),
            local_names: Map::empty(),
        }
    }

    /// The build with a module placed.
    pub open spec fn with_module(self, id: ModuleId, place: PlaceModel) -> Build {
        Build {
            modules: self.modules.insert(id, place),
            roots: self.roots.insert(place.root),
            ..self
        }
    }

    /// The build with a module placed under the local name of its requirement.
    pub open spec fn with_alias(self, module: ModuleData) -> Option<Build> {
        match dependency_alias(texts(module.path@), module.id.0 as nat, self.aliases) {
            None => None,
            Some((aliases, alias)) => Some(
                Build { aliases, ..self }.with_module(module.id, PlaceModel::named(alias)),
            ),
        }
    }

    /// The build with the place of one module of a bundle.
    pub open spec fn place_bundled(self, root: ModuleId, module: ModuleData) -> Option<Build> {
        if module.id == root {
            Some(self)
        } else if module.parent is None || module.path@.len() == 0 {
            None
        } else {
            let parent = module.parent->0;
            match allocated(self.used, parent, module.path@.last()@, module.id.0 as nat) {
                None => None,
                Some((used, field)) => {
                    let next = Build { used, ..self };
                    if parent == root {
                        Some(next.with_module(module.id, PlaceModel::named(field)))
                    } else if module.is_declaration && module.is_file {
                        next.with_alias(module)
                    } else {
                        match entry(self.modules, parent) {
                            None => None,
                            Some(place) => Some(next.with_module(module.id, place.field(field))),
                        }
                    }
                },
            }
        }
    }

    /// The build with the place of one module as another module sees it.
    pub open spec fn place_separate(
        self,
        current: ModuleId,
        table: Seq<char>,
        module: ModuleData,
    ) -> Option<Build> {
        if module.id == current {
            Some(self.with_module(module.id, PlaceModel::named(table)))
        } else if module.is_declaration && !module.is_file {
            if module.parent is None || module.path@.len() == 0 {
                None
            } else {
                match entry(self.modules, module.parent->0) {
                    None => None,
                    Some(place) => Some(
                        self.with_module(
                            module.id,
                            place.field(identifier_of(module.path@.last()@)),
                        ),
                    ),
                }
            }
        } else {
            self.with_alias(module)
        }
    }

    /// The build with the place of one module.
    pub open spec fn place_module(
        self,
        root: ModuleId,
        mode: LayoutMode,
        module: ModuleData,
    ) -> Option<Build> {
        match mode {
            LayoutMode::Bundle => self.place_bundled(root, module),
            LayoutMode::Module { current, table } => self.place_separate(current, table, module),
        }
    }

    /// The build with the places of `modules[from..]`.
    pub open spec fn place_modules(
        self,
        root: ModuleId,
        mode: LayoutMode,
        modules: Seq<ModuleData>,
        from: int,
    ) -> Option<Build>
        decreases modules.len() - from,
    {
        if from < 0 || from >= modules.len() {
            Some(self)
        } else {
            match self.place_module(root, mode, modules[from]) {
                None => None,
                Some(next) => next.place_modules(root, mode, modules, from + 1),
            }
        }
    }

    /// The place of a freshly named definition: a field of its module's table,
    /// or a local of the root of a bundle.
    pub open spec fn member_place(
        self,
        root: ModuleId,
        mode: LayoutMode,
        module: ModuleId,
        field: Seq<char>,
    ) -> Option<PlaceModel> {
        if mode is Bundle && module == root {
            Some(PlaceModel::named(field))
        } else {
            match entry(self.modules, module) {
                None => None,
                Some(place) => Some(place.field(field)),
            }
        }
    }

    /// The build with a definition placed, where it has a place.
    pub open spec fn with_definition(self, id: DefId, place: Option<PlaceModel>) -> Build {
        match place {
            None => self,
            Some(place) => Build { definitions: self.definitions.insert(id, place), ..self },
        }
    }

    /// The build with one definition placed.
    pub open spec fn place_definition(
        self,
        root: ModuleId,
        mode: LayoutMode,
        definition: DefData,
    ) -> Option<Build> {
        match definition.kind {
            DefKind::EnumVariant { owner, .. } => Some(
                self.with_definition(definition.id, entry(self.definitions, owner)),
            ),
            DefKind::Method { owner } => Some(self.place_method(definition, owner)),
            DefKind::TraitMethod { owner } => Some(self.place_method(definition, owner)),
            DefKind::Annotation | DefKind::Trait => Some(self),
            _ => match allocated(
                self.used,
                definition.module,
                definition.name@,
                definition.id.0 as nat,
            ) {
                None => None,
                Some((used, field)) => match self.member_place(
                    root,
                    mode,
                    definition.module,
                    field,
                ) {
                    None => None,
                    Some(place) => {
                        let next = Build { used, ..self }.with_definition(
                            definition.id,
                            Some(place),
                        );
                        match definition.kind {
                            DefKind::ExternFunction { extern_id } => Some(
                                Build { externs: next.externs.insert(extern_id, place), ..next },
                            ),
                            _ => Some(next),
                        }
                    },
                },
            },
        }
    }

    /// The build with a method placed below its owner, where that has a place.
    pub open spec fn place_method(self, definition: DefData, owner: DefId) -> Build {
        self.with_definition(
            definition.id,
            match entry(self.definitions, owner) {
                None => None,
                Some(place) => Some(place.field(identifier_of(definition.name@))),
            },
        )
    }

    /// The build with `definitions[from..]` placed.
    pub open spec fn place_definitions(
        self,
        root: ModuleId,
        mode: LayoutMode,
        definitions: Seq<DefData>,
        from: int,
    ) -> Option<Build>
        decreases definitions.len() - from,
    {
        if from < 0 || from >= definitions.len() {
            Some(self)
        } else {
            match self.place_definition(root, mode, definitions[from]) {
                None => None,
                Some(next) => next.place_definitions(root, mode, definitions, from + 1),
            }
        }
    }

    /// The Lua name of a source local: one name per module and source name, and
    /// none that the module uses for something else.
    pub open spec fn local_name(self, local: LocalData) -> Seq<char> {
        let candidate = identifier_of(local.name@);
        if self.local_names.dom().contains((local.module, local.name@)) {
            self.local_names[(local.module, local.name@)]
        } else if self.used.contains((local.module, candidate)) {
            free_name(names_in(self.used, local.module), candidate + "__local"@)
        } else {
            candidate
        }
    }

    /// The build with one local named.
    pub open spec fn place_local(self, local: LocalData) -> Build {
        let name = self.local_name(local);
        let next = if self.local_names.dom().contains((local.module, local.name@)) {
            self
        } else {
            Build {
                used: self.used.insert((local.module, name)),
                local_names: self.local_names.insert((local.module, local.name@), name),
                ..self
            }
        };
        Build { locals: next.locals.insert(local.id, PlaceModel::named(name)), ..next }
    }

    /// The build with `locals[from..]` named.
    pub open spec fn place_locals(self, locals: Seq<LocalData>, from: int) -> Build
        decreases locals.len() - from,
    {
        if from < 0 || from >= locals.len() {
            self
        } else {
            self.place_local(locals[from]).place_locals(locals, from + 1)
        }
    }
}

/// The names and places of a program, and the temporaries given out so far.
pub struct LayoutModel {
    pub modules: Map<ModuleId, PlaceModel>,
    pub definitions: Map<DefId, PlaceModel>,
    pub externs: Map<ExternId, PlaceModel>,
    pub locals: Map<LocalId, PlaceModel>,
    pub local_names: Map<(ModuleId, Seq<char>), Seq<char>>,
    pub root_names: Set<Seq<char>>,
    pub next_temporary: u64,
}

/// The layout of a program, where every allocation finds a free name.
pub open spec fn layout_of(hir: ResolvedHir, mode: LayoutMode) -> Option<LayoutModel> {
    match Build::initial(mode).place_modules(hir.root, mode, hir.modules@, 0) {
        None => None,
        Some(modules) => match modules.place_definitions(hir.root, mode, hir.definitions@, 0) {
            None => None,
            Some(definitions) => Some(finished(hir.root, mode, definitions.place_locals(hir.locals@, 0))),
        },
    }
}

/// The finished layout.
pub open spec fn finished(root: ModuleId, mode: LayoutMode, build: Build) -> LayoutModel {
    let names = match mode {
        LayoutMode::Bundle => names_in(build.used, root),
        LayoutMode::Module { current, .. } => names_in(build.used, current).union(build.roots),
    };
    LayoutModel {
        modules: build.modules,
        definitions: build.definitions,
        externs: build.externs,
        locals: build.locals,
        local_names: build.local_names,
        root_names: names.insert("rt"@).insert("__rua_table_create"@),
        next_temporary: 0,
    }
}

impl LayoutModel {
    /// The place of a target.
    pub open spec fn target(self, target: ResolvedTarget) -> Option<PlaceModel> {
        match target {
            ResolvedTarget::Item(definition) => entry(self.definitions, definition),
            ResolvedTarget::Module(module) => entry(self.modules, module),
            ResolvedTarget::Local(local) => entry(self.locals, local),
            ResolvedTarget::Extern(external) => entry(self.externs, external),
            _ => None,
        }
    }

    /// The Lua name of a source local of a module.
    pub open spec fn local_name(self, module: ModuleId, name: Seq<char>) -> Seq<char> {
        match entry(self.local_names, (module, name)) {
            Some(found) => found,
            None => identifier_of(name),
        }
    }

    /// The name of a runtime import: the preferred one, or the first free one.
    pub open spec fn runtime_alias(self, preferred: Seq<char>) -> Seq<char> {
        let base = identifier_of(preferred);
        if self.root_names.contains(base) {
            free_name(self.root_names, base + "__runtime"@)
        } else {
            base
        }
    }

    /// The layout after a runtime import has been named.
    pub open spec fn with_runtime_alias(self, preferred: Seq<char>) -> LayoutModel {
        LayoutModel {
            root_names: self.root_names.insert(self.runtime_alias(preferred)),
            ..self
        }
    }

    /// The layout after a temporary has been given out.
    pub open spec fn with_temporary(self) -> LayoutModel {
        LayoutModel { next_temporary: (self.next_temporary + 1) as u64, ..self }
    }
}

/// The names and places of a program.
#[derive(Debug)]
pub struct BackendLayout {
    pub modules: Table<ModuleId, Place>,
    pub definitions: Table<DefId, Place>,
    pub externs: Table<ExternId, Place>,
    pub locals: Table<LocalId, Place>,
    pub local_names: Table<(ModuleId, String), String>,
    pub root_names: KeySet<(ModuleId, String)>,
    pub next_temporary: u64,
}

/// The scope under which a layout keeps the names of its own file.
pub open spec fn file_scope() -> ModuleId {
    ModuleId(0)
}

struct Allocation {
    used: KeySet<(ModuleId, String)>,
    aliases: KeySet<String>,
    roots: KeySet<String>,
    modules: Table<ModuleId, Place>,
    definitions: Table<DefId, Place>,
    externs: Table<ExternId, Place>,
    locals: Table<LocalId, Place>,
    local_names: Table<(ModuleId, String), String>,
}

impl Allocation {
    spec fn view(&self) -> Build {
        Build {
            used: self.used@,
            aliases: self.aliases@,
            roots: self.roots@,
            modules: places(self.modules),
            definitions: places(self.definitions),
            externs: places(self.externs),
            locals: places(self.locals),
            local_names: names_of(self.local_names),
        }
    }

    fn put_module(&mut self, id: ModuleId, place: Place)
        ensures
            final(self)@ == old(self)@.with_module(id, place@),
    {
        let ghost before = self.modules;
        let _ = self.roots.insert(place.root.clone());
        let _ = self.modules.insert(id, place);
        proof {
            lemma_places_insert(before, self.modules, id, place);
        }
    }

    fn put_definition(&mut self, id: DefId, place: Option<Place>)
        ensures
            final(self)@ == old(self)@.with_definition(
                id,
                match place {
                    Some(p) => Some(p@),
                    None => None,
                },
            ),
    {
        if let Some(place) = place {
            let ghost before = self.definitions;
            let _ = self.definitions.insert(id, place);
            proof {
                lemma_places_insert(before, self.definitions, id, place);
            }
        }
    }

    fn put_alias(&mut self, module: &ModuleData) -> (r: bool)
        ensures
            match old(self)@.with_alias(*module) {
                Some(next) => r && final(self)@ == next,
                None => !r,
            },
    {
        match try_dependency_alias(&module.path, module.id.0, &mut self.aliases) {
            None => false,
            Some(alias) => {
                self.put_module(module.id, Place::named(alias));
                true
            },
        }
    }

    fn module_place(&self, id: ModuleId) -> (r: Option<Place>)
        ensures
            match r {
                Some(p) => entry(self@.modules, id) == Some(p@),
                None => entry(self@.modules, id) is None,
            },
    {
        match self.modules.get(&id) {
            Some(place) => Some(place.copy()),
            None => None,
        }
    }

    fn definition_place(&self, id: DefId) -> (r: Option<Place>)
        ensures
            match r {
                Some(p) => entry(self@.definitions, id) == Some(p@),
                None => entry(self@.definitions, id) is None,
            },
    {
        match self.definitions.get(&id) {
            Some(place) => Some(place.copy()),
            None => None,
        }
    }

    fn place_bundled(&mut self, root: ModuleId, module: &ModuleData) -> (r: bool)
        ensures
            match old(self)@.place_bundled(root, *module) {
                Some(next) => r && final(self)@ == next,
                None => !r,
            },
    {
        if module.id == root {
            return true;
        }
        let parent = match module.parent {
            Some(parent) => parent,
            None => {
                return false;
            },
        };
        if module.path.len() == 0 {
            return false;
        }
        let source_name = &module.path[module.path.len() - 1];
        let field = match allocate_name(
            &mut self.used,
            parent,
            source_name.as_str(),
            module.id.0,
        ) {
            Some(field) => field,
            None => {
                return false;
            },
        };
        if parent == root {
            self.put_module(module.id, Place::named(field));
            true
        } else if module.is_declaration && module.is_file {
            self.put_alias(module)
        } else {
            match self.module_place(parent) {
                None => false,
                Some(place) => {
                    self.put_module(module.id, place.field(field.as_str()));
                    true
                },
            }
        }
    }

    fn place_separate(&mut self, current: ModuleId, table: &str, module: &ModuleData) -> (r: bool)
        ensures
            match old(self)@.place_separate(current, table@, *module) {
                Some(next) => r && final(self)@ == next,
                None => !r,
            },
    {
        if module.id == current {
            self.put_module(module.id, Place::named(table.to_string()));
            true
        } else if module.is_declaration && !module.is_file {
            let parent = match module.parent {
                Some(parent) => parent,
                None => {
                    return false;
                },
            };
            if module.path.len() == 0 {
                return false;
            }
            let field = user_identifier(module.path[module.path.len() - 1].as_str());
            match self.module_place(parent) {
                None => false,
                Some(place) => {
                    self.put_module(module.id, place.field(field.as_str()));
                    true
                },
            }
        } else {
            self.put_alias(module)
        }
    }

    fn place_definition(
        &mut self,
        root: ModuleId,
        separate: bool,
        Ghost(mode): Ghost<LayoutMode>,
        definition: &DefData,
    ) -> (r: bool)
        requires
            separate == !(mode is Bundle),
        ensures
            match old(self)@.place_definition(root, mode, *definition) {
                Some(next) => r && final(self)@ == next,
                None => !r,
            },
    {
        match definition.kind {
            DefKind::EnumVariant { owner, .. } => {
                let place = self.definition_place(owner);
                self.put_definition(definition.id, place);
                return true;
            },
            DefKind::Method { owner } => {
                let place = match self.definition_place(owner) {
                    Some(place) => Some(
                        place.field(user_identifier(definition.name.as_str()).as_str()),
                    ),
                    None => None,
                };
                self.put_definition(definition.id, place);
                return true;
            },
            DefKind::TraitMethod { owner } => {
                let place = match self.definition_place(owner) {
                    Some(place) => Some(
                        place.field(user_identifier(definition.name.as_str()).as_str()),
                    ),
                    None => None,
                };
                self.put_definition(definition.id, place);
                return true;
            },
            DefKind::Annotation => {
                return true;
            },
            DefKind::Trait => {
                return true;
            },
            _ => {},
        }
        let field = match allocate_name(
            &mut self.used,
            definition.module,
            definition.name.as_str(),
            definition.id.0,
        ) {
            Some(field) => field,
            None => {
                return false;
            },
        };
        let place = if !separate && definition.module == root {
            Place::named(field)
        } else {
            match self.module_place(definition.module) {
                Some(place) => place.field(field.as_str()),
                None => {
                    return false;
                },
            }
        };
        if let DefKind::ExternFunction { extern_id } = definition.kind {
            let ghost before = self.externs;
            let copy = place.copy();
            let _ = self.externs.insert(extern_id, copy);
            proof {
                lemma_places_insert(before, self.externs, extern_id, copy);
            }
        }
        self.put_definition(definition.id, Some(place));
        true
    }

    fn place_local(&mut self, local: &LocalData)
        ensures
            final(self)@ == old(self)@.place_local(*local),
    {
        let key = (local.module, local.name.clone());
        let known = match self.local_names.get(&key) {
            Some(name) => Some(name.clone()),
            None => None,
        };
        let name = match known {
            Some(name) => name,
            None => {
                let candidate = user_identifier(local.name.as_str());
                let pair = (local.module, candidate);
                let name = if self.used.has(&pair) {
                    find_free(
                        &self.used,
                        local.module,
                        cat2(pair.1.as_str(), "__local"),
                    )
                } else {
                    pair.1
                };
                let _ = self.used.insert((local.module, name.clone()));
                let ghost before = self.local_names;
                let copy = name.clone();
                let _ = self.local_names.insert(key, copy);
                proof {
                    lemma_names_insert(before, self.local_names, key.key(), copy);
                }
                name
            },
        };
        let ghost before = self.locals;
        let place = Place::named(name);
        let _ = self.locals.insert(local.id, place);
        proof {
            lemma_places_insert(before, self.locals, local.id, place);
        }
    }
}


/// The scoped names of one scope, under the scope of the file.
fn file_names(used: &KeySet<(ModuleId, String)>, scope: ModuleId) -> (r: KeySet<(ModuleId, String)>)
    ensures
        names_in(r@, file_scope()) == names_in(used@, scope),
{
    let mut out: KeySet<(ModuleId, String)> = KeySet::new();
    let mut i: usize = 0;
    while i < used.items.len()
        invariant
            i <= used.items.len(),
            forall|n: Seq<char>| #[trigger]
                out@.contains((file_scope(), n)) <==> exists|k: int|
                    0 <= k < i && (#[trigger] used.items@[k]).key() == (scope, n),
        decreases used.items.len() - i,
    {
        let ghost before = out@;
        if used.items[i].0 == scope {
            let _ = out.insert((ModuleId(0), used.items[i].1.clone()));
        }
        i += 1;
        proof {
            let added = used.items@[i - 1];
            assert forall|n: Seq<char>| #[trigger]
                out@.contains((file_scope(), n)) <==> exists|k: int|
                    0 <= k < i && (#[trigger] used.items@[k]).key() == (scope, n) by {
                if out@.contains((file_scope(), n)) {
                    if before.contains((file_scope(), n)) {
                        let k = choose|k: int|
                            0 <= k < i - 1 && (#[trigger] used.items@[k]).key() == (scope, n);
                        assert(used.items@[k].key() == (scope, n));
                    } else {
                        assert(used.items@[i - 1].key() == (scope, n));
                    }
                }
                if exists|k: int| 0 <= k < i && (#[trigger] used.items@[k]).key() == (scope, n) {
                    let k = choose|k: int|
                        0 <= k < i && (#[trigger] used.items@[k]).key() == (scope, n);
                    if k < i - 1 {
                        assert(before.contains((file_scope(), n)));
                    }
                }
            }
        }
    }
    proof {
        assert(names_in(out@, file_scope()) =~= names_in(used@, scope)) by {
            assert forall|n: Seq<char>| names_in(out@, file_scope()).contains(n) <==> #[trigger]
                names_in(used@, scope).contains(n) by {
                assert(out@.contains((file_scope(), n)) <==> used@.contains((scope, n)));
            }
        }
    }
    out
}

/// Adds a name to the names of the file.
fn add_file_name(names: &mut KeySet<(ModuleId, String)>, name: String)
    ensures
        names_in(final(names)@, file_scope()) == names_in(old(names)@, file_scope()).insert(name@),
{
    let _ = names.insert((ModuleId(0), name));
    proof {
        assert(names_in(names@, file_scope()) =~= names_in(old(names)@, file_scope()).insert(
            name@,
        ));
    }
}

impl BackendLayout {
    /// The layout over mathematical maps and sets.
    pub open spec fn view(&self) -> LayoutModel {
        LayoutModel {
            modules: places(self.modules),
            definitions: places(self.definitions),
            externs: places(self.externs),
            locals: places(self.locals),
            local_names: names_of(self.local_names),
            root_names: names_in(self.root_names@, file_scope()),
            next_temporary: self.next_temporary,
        }
    }

    fn build(
        hir: &ResolvedHir,
        separate: bool,
        current: ModuleId,
        table: &str,
    ) -> (r: Option<Self>)
        ensures
            ({
                let mode = if separate {
                    LayoutMode::Module { current, table: table@ }
                } else {
                    LayoutMode::Bundle
                };
                match layout_of(*hir, mode) {
                    Some(layout) => r matches Some(l) && l@ == layout,
                    None => r is None,
                }
            }),
    {
        let ghost mode = if separate {
            LayoutMode::Module { current, table: table@ }
        } else {
            LayoutMode::Bundle
        };
        let mut build = Allocation {
            used: KeySet::new(),
            aliases: KeySet::new(),
            roots: KeySet::new(),
            modules: Table::new(),
            definitions: Table::new(),
            externs: Table::new(),
            locals: Table::new(),
            local_names: Table::new(),
        };
        if separate {
            let _ = build.aliases.insert(table.to_string());
        }
        proof {
            assert(build@.modules =~= Map::empty());
            assert(build@.definitions =~= Map::empty());
            assert(build@.externs =~= Map::empty());
            assert(build@.locals =~= Map::empty());
            assert(build@.local_names =~= Map::empty());
            assert(build@ == Build::initial(mode));
        }
        let ghost start = build@;
        let mut i: usize = 0;
        while i < hir.modules.len()
            invariant
                i <= hir.modules.len(),
                start == Build::initial(mode),
                mode == if separate {
                    LayoutMode::Module { current, table: table@ }
                } else {
                    LayoutMode::Bundle
                },
                build@.place_modules(hir.root, mode, hir.modules@, i as int)
                    == start.place_modules(hir.root, mode, hir.modules@, 0),
            decreases hir.modules.len() - i,
        {
            let placed = if separate {
                build.place_separate(current, table, &hir.modules[i])
            } else {
                build.place_bundled(hir.root, &hir.modules[i])
            };
            if !placed {
                return None;
            }
            i += 1;
        }
        let ghost middle = build@;
        let mut j: usize = 0;
        while j < hir.definitions.len()
            invariant
                j <= hir.definitions.len(),
                start == Build::initial(mode),
                mode == if separate {
                    LayoutMode::Module { current, table: table@ }
                } else {
                    LayoutMode::Bundle
                },
                start.place_modules(hir.root, mode, hir.modules@, 0) == Some(middle),
                build@.place_definitions(hir.root, mode, hir.definitions@, j as int)
                    == middle.place_definitions(hir.root, mode, hir.definitions@, 0),
            decreases hir.definitions.len() - j,
        {
            if !build.place_definition(hir.root, separate, Ghost(mode), &hir.definitions[j]) {
                return None;
            }
            j += 1;
        }
        let ghost placed = build@;
        let mut k: usize = 0;
        while k < hir.locals.len()
            invariant
                k <= hir.locals.len(),
                build@.place_locals(hir.locals@, k as int) == placed.place_locals(hir.locals@, 0),
            decreases hir.locals.len() - k,
        {
            build.place_local(&hir.locals[k]);
            k += 1;
        }
        let scope = if separate {
            current
        } else {
            hir.root
        };
        let mut root_names = file_names(&build.used, scope);
        if separate {
            let ghost base = names_in(root_names@, file_scope());
            let mut n: usize = 0;
            while n < build.roots.items.len()
                invariant
                    n <= build.roots.items.len(),
                    names_in(root_names@, file_scope()) == base.union(
                        Set::new(
                            |t: Seq<char>|
                                exists|q: int|
                                    0 <= q < n && (#[trigger] build.roots.items@[q])@ == t,
                        ),
                    ),
                decreases build.roots.items.len() - n,
            {
                let ghost before = names_in(root_names@, file_scope());
                add_file_name(&mut root_names, build.roots.items[n].clone());
                n += 1;
                proof {
                    let want = base.union(
                        Set::new(
                            |t: Seq<char>|
                                exists|q: int|
                                    0 <= q < n && (#[trigger] build.roots.items@[q])@ == t,
                        ),
                    );
                    assert forall|t: Seq<char>| names_in(root_names@, file_scope()).contains(t)
                        <==> #[trigger] want.contains(t) by {
                        if t == build.roots.items@[n - 1]@ {
                            assert(build.roots.items@[n - 1]@ == t);
                        }
                        if before.contains(t) && !base.contains(t) {
                            let q = choose|q: int|
                                0 <= q < n - 1 && (#[trigger] build.roots.items@[q])@ == t;
                            assert(build.roots.items@[q]@ == t);
                        }
                        if want.contains(t) && !base.contains(t) {
                            let q = choose|q: int|
                                0 <= q < n && (#[trigger] build.roots.items@[q])@ == t;
                            if q < n - 1 {
                                assert(before.contains(t));
                            }
                        }
                    }
                    assert(names_in(root_names@, file_scope()) =~= want);
                }
            }
            proof {
                assert(names_in(root_names@, file_scope()) =~= base.union(build.roots@));
            }
        }
        add_file_name(&mut root_names, "rt".to_string());
        add_file_name(&mut root_names, "__rua_table_create".to_string());
        Some(
            BackendLayout {
                modules: build.modules,
                definitions: build.definitions,
                externs: build.externs,
                locals: build.locals,
                local_names: build.local_names,
                root_names,
                next_temporary: 0,
            },
        )
    }

    /// The layout of a program that is emitted as one file, where every
    /// allocation finds a free name.
    pub fn try_new(program: &TypedProgram) -> (r: Option<Self>)
        ensures
            match layout_of(program.hir, LayoutMode::Bundle) {
                Some(layout) => r matches Some(l) && l@ == layout,
                None => r is None,
            },
    {
        BackendLayout::build(&program.hir, false, program.hir.root, "")
    }

    /// The layout of a program that is emitted as one file.
    pub fn new(program: &TypedProgram) -> (r: Self)
        requires
            layout_of(program.hir, LayoutMode::Bundle) is Some,
        ensures
            r@ == layout_of(program.hir, LayoutMode::Bundle)->0,
    {
        BackendLayout::try_new(program).unwrap()
    }

    /// The layout for one module that is emitted on its own, under a table of
    /// the given name, where every allocation finds a free name. Every module
    /// owns a table; other modules are reached through local aliases.
    pub fn try_for_module(program: &TypedProgram, current: ModuleId, table: &str) -> (r: Option<
        Self,
    >)
        ensures
            match layout_of(program.hir, LayoutMode::Module { current, table: table@ }) {
                Some(layout) => r matches Some(l) && l@ == layout,
                None => r is None,
            },
    {
        BackendLayout::build(&program.hir, true, current, table)
    }

    /// The layout for one module that is emitted on its own, under the standard
    /// name of its table.
    pub fn for_module(program: &TypedProgram, current: ModuleId) -> (r: Self)
        requires
            layout_of(
                program.hir,
                LayoutMode::Module { current, table: "__rua_module"@ },
            ) is Some,
        ensures
            r@ == layout_of(
                program.hir,
                LayoutMode::Module { current, table: "__rua_module"@ },
            )->0,
    {
        BackendLayout::try_for_module(program, current, "__rua_module").unwrap()
    }

    /// The place of a module.
    pub fn module(&self, module: ModuleId) -> (r: Option<&Place>)
        ensures
            match r {
                Some(p) => entry(self@.modules, module) == Some(p@),
                None => entry(self@.modules, module) is None,
            },
    {
        self.modules.get(&module)
    }

    /// The place of a definition.
    pub fn definition(&self, definition: DefId) -> (r: Option<&Place>)
        ensures
            match r {
                Some(p) => entry(self@.definitions, definition) == Some(p@),
                None => entry(self@.definitions, definition) is None,
            },
    {
        self.definitions.get(&definition)
    }

    /// The place of a target.
    pub fn target(&self, target: ResolvedTarget) -> (r: Option<&Place>)
        ensures
            match r {
                Some(p) => self@.target(target) == Some(p@),
                None => self@.target(target) is None,
            },
    {
        match target {
            ResolvedTarget::Item(definition) => self.definition(definition),
            ResolvedTarget::Module(module) => self.module(module),
            ResolvedTarget::Local(local) => self.locals.get(&local),
            ResolvedTarget::Extern(external) => self.externs.get(&external),
            _ => None,
        }
    }

    /// The target that defines a function or a method.
    pub fn callable_target(&self, definition: DefId, receiver: bool) -> (r: FunctionTarget)
        requires
            entry(self@.definitions, definition) is Some,
        ensures
            r.model() == (entry(self@.definitions, definition)->0).callable_target(receiver),
    {
        self.definition(definition).unwrap().callable_target(receiver)
    }

    /// The Lua name of a source local of a module.
    pub fn local_name(&self, module: ModuleId, name: &str) -> (r: String)
        ensures
            r@ == self@.local_name(module, name@),
    {
        match self.local_names.get(&(module, name.to_string())) {
            Some(found) => found.clone(),
            None => user_identifier(name),
        }
    }

    /// The Lua name of a field or method.
    pub fn member_name(&self, name: &str) -> (r: String)
        ensures
            r@ == identifier_of(name@),
            is_identifier(r@),
    {
        user_identifier(name)
    }

    /// Names a runtime import.
    pub fn runtime_module_alias(&mut self, preferred: &str) -> (r: String)
        ensures
            r@ == old(self)@.runtime_alias(preferred@),
            final(self)@ == old(self)@.with_runtime_alias(preferred@),
            !old(self)@.root_names.contains(r@),
    {
        let base = user_identifier(preferred);
        let pair = (ModuleId(0), base);
        let name = if self.root_names.has(&pair) {
            find_free(&self.root_names, ModuleId(0), cat2(pair.1.as_str(), "__runtime"))
        } else {
            pair.1
        };
        add_file_name(&mut self.root_names, name.clone());
        name
    }

    /// Gives out the next temporary.
    pub fn fresh_temporary(&mut self) -> (r: String)
        requires
            old(self)@.next_temporary < u64::MAX,
        ensures
            r@ == temporary_name((old(self)@.next_temporary + 1) as nat),
            final(self)@ == old(self)@.with_temporary(),
    {
        self.next_temporary = self.next_temporary + 1;
        cat2("__t", decimal_text(self.next_temporary).as_str())
    }
}

// ---------------------------------------------------------------------------
// Laws of the layout.
// ---------------------------------------------------------------------------

/// Whether every place and every local name of a build is made of Lua identifiers.
spec fn is_sound(build: Build) -> bool {
    &&& forall|m: ModuleId| #[trigger]
        build.modules.dom().contains(m) ==> build.modules[m].is_valid()
    &&& forall|d: DefId| #[trigger]
        build.definitions.dom().contains(d) ==> build.definitions[d].is_valid()
    &&& forall|e: ExternId| #[trigger]
        build.externs.dom().contains(e) ==> build.externs[e].is_valid()
}

proof fn lemma_field_valid(place: PlaceModel, field: Seq<char>)
    requires
        place.is_valid(),
        is_identifier(field),
    ensures
        place.field(field).is_valid(),
{
    let next = place.field(field);
    assert forall|i: int| 0 <= i < next.fields.len() implies is_identifier(
        #[trigger] next.fields[i],
    ) by {
        if i < place.fields.len() {
            assert(next.fields[i] == place.fields[i]);
        }
    }
}

proof fn lemma_joined_words(parts: Seq<Seq<char>>, from: int)
    requires
        0 <= from,
        forall|i: int| 0 <= i < parts.len() ==> is_identifier(#[trigger] parts[i]),
    ensures
        forall|i: int|
            0 <= i < crate::text::join_from(parts, "_"@, from).len() ==> is_name_part(
                #[trigger] crate::text::join_from(parts, "_"@, from)[i],
            ),
    decreases parts.len() - from,
{
    reveal_strlit("_");
    if from < parts.len() - 1 {
        lemma_joined_words(parts, from + 1);
        let rest = crate::text::join_from(parts, "_"@, from + 1);
        let whole = crate::text::join_from(parts, "_"@, from);
        let head = parts[from];
        assert(whole == head + "_"@ + rest);
        assert forall|i: int| 0 <= i < whole.len() implies is_name_part(#[trigger] whole[i]) by {
            if i < head.len() {
                assert(whole[i] == head[i]);
            } else if i == head.len() {
                assert(whole[i] == '_');
            } else {
                assert(whole[i] == rest[i - head.len() - 1]);
            }
        }
    }
}

proof fn lemma_alias_valid(segments: Seq<Seq<char>>, identity: nat, used: Set<Seq<char>>)
    requires
        dependency_alias(segments, identity, used) is Some,
    ensures
        is_identifier((dependency_alias(segments, identity, used)->0).1),
{
    let path = joined(encoded_path(segments), "_"@);
    let candidate = "__rua_dep_"@ + path;
    reveal_strlit("__rua_dep_");
    assert forall|i: int| 0 <= i < encoded_path(segments).len() implies is_identifier(
        #[trigger] encoded_path(segments)[i],
    ) by {
        law_user_identifier_is_lua_safe(segments[i]);
    }
    lemma_joined_words(encoded_path(segments), 0);
    assert forall|i: int| 0 <= i < candidate.len() implies is_name_part(#[trigger] candidate[i]) by {
        if i >= 10 {
            assert(candidate[i] == path[i - 10]);
        } else {
            assert(candidate[i] == "__rua_dep_"@[i]);
        }
    }
    assert(candidate[0] == '_');
    lemma_underscore_is_not_keyword(candidate);
    lemma_suffixed_identifier(candidate, "_"@, identity);
}

proof fn lemma_module_sound(build: Build, root: ModuleId, mode: LayoutMode, module: ModuleData)
    requires
        is_sound(build),
        build.place_module(root, mode, module) is Some,
        mode matches LayoutMode::Module { table, .. } ==> is_identifier(table),
    ensures
        is_sound(build.place_module(root, mode, module)->0),
{
    let next = build.place_module(root, mode, module)->0;
    if dependency_alias(texts(module.path@), module.id.0 as nat, build.aliases) is Some {
        lemma_alias_valid(texts(module.path@), module.id.0 as nat, build.aliases);
    }
    if module.path@.len() > 0 {
        law_user_identifier_is_lua_safe(module.path@.last()@);
        if let Some(parent) = module.parent {
            if allocated(build.used, parent, module.path@.last()@, module.id.0 as nat) is Some {
                law_allocated_names_are_fresh(
                    build.used,
                    parent,
                    module.path@.last()@,
                    module.id.0 as nat,
                );
            }
            if build.modules.dom().contains(parent) {
                let place = build.modules[parent];
                lemma_field_valid(place, identifier_of(module.path@.last()@));
                if allocated(build.used, parent, module.path@.last()@, module.id.0 as nat) is Some {
                    lemma_field_valid(
                        place,
                        (allocated(
                            build.used,
                            parent,
                            module.path@.last()@,
                            module.id.0 as nat,
                        )->0).1,
                    );
                }
            }
        }
    }
    assert forall|m: ModuleId| #[trigger] next.modules.dom().contains(m) implies next.modules[m].is_valid() by {
        if m != module.id {
            assert(build.modules.dom().contains(m));
        }
    }
}

proof fn lemma_modules_sound(
    build: Build,
    root: ModuleId,
    mode: LayoutMode,
    modules: Seq<ModuleData>,
    from: int,
)
    requires
        is_sound(build),
        build.place_modules(root, mode, modules, from) is Some,
        mode matches LayoutMode::Module { table, .. } ==> is_identifier(table),
    ensures
        is_sound(build.place_modules(root, mode, modules, from)->0),
    decreases modules.len() - from,
{
    if 0 <= from < modules.len() {
        lemma_module_sound(build, root, mode, modules[from]);
        lemma_modules_sound(
            build.place_module(root, mode, modules[from])->0,
            root,
            mode,
            modules,
            from + 1,
        );
    }
}

proof fn lemma_definition_sound(build: Build, root: ModuleId, mode: LayoutMode, definition: DefData)
    requires
        is_sound(build),
        build.place_definition(root, mode, definition) is Some,
    ensures
        is_sound(build.place_definition(root, mode, definition)->0),
{
    let next = build.place_definition(root, mode, definition)->0;
    law_user_identifier_is_lua_safe(definition.name@);
    let fresh = allocated(
        build.used,
        definition.module,
        definition.name@,
        definition.id.0 as nat,
    );
    if fresh is Some {
        law_allocated_names_are_fresh(
            build.used,
            definition.module,
            definition.name@,
            definition.id.0 as nat,
        );
        if build.modules.dom().contains(definition.module) {
            lemma_field_valid(build.modules[definition.module], (fresh->0).1);
        }
    }
    match definition.kind {
        DefKind::Method { owner } => {
            if build.definitions.dom().contains(owner) {
                lemma_field_valid(build.definitions[owner], identifier_of(definition.name@));
            }
        },
        DefKind::TraitMethod { owner } => {
            if build.definitions.dom().contains(owner) {
                lemma_field_valid(build.definitions[owner], identifier_of(definition.name@));
            }
        },
        _ => {},
    }
    assert forall|d: DefId| #[trigger] next.definitions.dom().contains(d) implies next.definitions[d].is_valid() by {
        if d != definition.id {
            assert(build.definitions.dom().contains(d));
        } else if build.definitions.dom().contains(d) {
        }
    }
    assert forall|e: ExternId| #[trigger] next.externs.dom().contains(e) implies next.externs[e].is_valid() by {
        if build.externs.dom().contains(e) {
        }
    }
}

proof fn lemma_definitions_sound(
    build: Build,
    root: ModuleId,
    mode: LayoutMode,
    definitions: Seq<DefData>,
    from: int,
)
    requires
        is_sound(build),
        build.place_definitions(root, mode, definitions, from) is Some,
    ensures
        is_sound(build.place_definitions(root, mode, definitions, from)->0),
    decreases definitions.len() - from,
{
    if 0 <= from < definitions.len() {
        lemma_definition_sound(build, root, mode, definitions[from]);
        lemma_definitions_sound(
            build.place_definition(root, mode, definitions[from])->0,
            root,
            mode,
            definitions,
            from + 1,
        );
    }
}

/// Naming locals leaves every place as it is.
pub proof fn lemma_locals_keep_places(build: Build, locals: Seq<LocalData>, from: int)
    ensures
        build.place_locals(locals, from).modules == build.modules,
        build.place_locals(locals, from).definitions == build.definitions,
        build.place_locals(locals, from).externs == build.externs,
    decreases locals.len() - from,
{
    if 0 <= from < locals.len() {
        lemma_locals_keep_places(build.place_local(locals[from]), locals, from + 1);
    }
}

/// Every module, definition and host function of a layout lives under names
/// that are Lua identifiers, whatever the source names are.
pub proof fn law_places_are_lua_safe(hir: ResolvedHir, mode: LayoutMode)
    requires
        layout_of(hir, mode) is Some,
        mode matches LayoutMode::Module { table, .. } ==> is_identifier(table),
    ensures
        forall|m: ModuleId| #[trigger]
            (layout_of(hir, mode)->0).modules.dom().contains(m) ==> (layout_of(
                hir,
                mode,
            )->0).modules[m].is_valid(),
        forall|d: DefId| #[trigger]
            (layout_of(hir, mode)->0).definitions.dom().contains(d) ==> (layout_of(
                hir,
                mode,
            )->0).definitions[d].is_valid(),
        forall|e: ExternId| #[trigger]
            (layout_of(hir, mode)->0).externs.dom().contains(e) ==> (layout_of(
                hir,
                mode,
            )->0).externs[e].is_valid(),
{
    let start = Build::initial(mode);
    lemma_modules_sound(start, hir.root, mode, hir.modules@, 0);
    let modules = start.place_modules(hir.root, mode, hir.modules@, 0)->0;
    lemma_definitions_sound(modules, hir.root, mode, hir.definitions@, 0);
    let definitions = modules.place_definitions(hir.root, mode, hir.definitions@, 0)->0;
    lemma_locals_keep_places(definitions, hir.locals@, 0);
}

} // verus!
