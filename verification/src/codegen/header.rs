//! The head of a generated file: the search path, the modules it requires and
//! the local names of their members.

use vstd::prelude::*;
use vstd::utf8::encode_utf8;

use super::state::{imports_model, pairs_model, ImportModel, RuntimeImport};
use crate::lua_ir::{lua_member, lua_string, member_text, quoted, EntryModel};
use crate::lua_print::{
    law_mappings_are_ordered, law_mappings_lie_in_the_text, ordered, printed_page, Printed,
    SourceMapping,
};
use crate::table::{with_text, TextSet};
use crate::text::{
    byte_len, cat2, cat3, chars_of, decimal, decimal_text, join, joined, text_between, texts,
};
use crate::token::SourceRange;

verus! {

// ---------------------------------------------------------------------------
// Ends of texts.
// ---------------------------------------------------------------------------

/// Whether a text ends with another.
pub open spec fn closes_with(text: Seq<char>, end: Seq<char>) -> bool {
    end.len() <= text.len() && text.skip(text.len() - end.len()) == end
}

pub fn ends_with(text: &str, end: &str) -> (r: bool)
    ensures
        r == closes_with(text@, end@),
{
    let whole = chars_of(text);
    let last = chars_of(end);
    if last.len() > whole.len() {
        return false;
    }
    let from: usize = whole.len() - last.len();
    let mut i: usize = 0;
    while i < last.len()
        invariant
            i <= last.len(),
            last@ == end@,
            whole@ == text@,
            from + last.len() == whole.len(),
            forall|k: int| 0 <= k < i ==> #[trigger] last@[k] == whole@[from + k],
        decreases last.len() - i,
    {
        if whole[from + i] != last[i] {
            proof {
                assert(text@.skip(from as int)[i as int] == whole@[from + i]);
            }
            return false;
        }
        i += 1;
    }
    proof {
        assert forall|k: int| 0 <= k < end@.len() implies text@.skip(from as int)[k] == end@[k] by {
            assert(last@[k] == whole@[from + k]);
        }
        assert(text@.skip(from as int) =~= end@);
    }
    true
}

// ---------------------------------------------------------------------------
// The search path.
// ---------------------------------------------------------------------------

/// A path with forward slashes.
pub open spec fn slashed(path: Seq<char>) -> Seq<char> {
    Seq::new(
        path.len(),
        |i: int|
            if path[i] == '\\' {
                '/'
            } else {
                path[i]
            },
    )
}

/// The length of a path without the slashes at its end.
pub open spec fn trimmed_len(path: Seq<char>, n: int) -> int
    decreases n,
{
    if n <= 0 || n > path.len() || path[n - 1] != '/' {
        n
    } else {
        trimmed_len(path, n - 1)
    }
}

/// The pattern under which Lua looks for modules in a directory.
pub open spec fn search_pattern(path: Seq<char>) -> Seq<char> {
    path.take(trimmed_len(path, path.len() as int)) + "/?.lua"@
}

/// The patterns of the directories `paths[from..]`, each once, or why one of them
/// cannot be searched.
pub open spec fn search_patterns(
    paths: Seq<Seq<char>>,
    from: int,
    done: Seq<Seq<char>>,
) -> Result<Seq<Seq<char>>, Seq<char>>
    decreases paths.len() - from,
{
    if from < 0 || from >= paths.len() {
        Ok(done)
    } else {
        let path = slashed(paths[from]);
        if path.len() == 0 {
            Err("Lua search directory cannot be empty"@)
        } else if path.contains(';') {
            Err("Lua search directory cannot contain `;`: "@ + path)
        } else {
            search_patterns(paths, from + 1, with_text(done, search_pattern(path)))
        }
    }
}

/// The statement that extends the search path, where there is anything to add.
pub open spec fn search_path(paths: Seq<Seq<char>>) -> Result<Seq<char>, Seq<char>> {
    match search_patterns(paths, 0, Seq::empty()) {
        Err(error) => Err(error),
        Ok(patterns) => Ok(
            if patterns.len() == 0 {
                Seq::empty()
            } else {
                "package.path = "@ + quoted(joined(patterns, ";"@))
                    + " .. \";\" .. package.path\n"@
            },
        ),
    }
}

fn slash_path(path: &str) -> (r: Vec<char>)
    ensures
        r@ == slashed(path@),
{
    let chars = chars_of(path);
    let mut out: Vec<char> = Vec::new();
    let mut i: usize = 0;
    while i < chars.len()
        invariant
            i <= chars.len(),
            chars@ == path@,
            out@.len() == i,
            forall|k: int| 0 <= k < i ==> #[trigger] out@[k] == slashed(path@)[k],
        decreases chars.len() - i,
    {
        if chars[i] == '\\' {
            out.push('/');
        } else {
            out.push(chars[i]);
        }
        i += 1;
    }
    proof {
        assert(out@ =~= slashed(path@));
    }
    out
}

fn holds_char(chars: &Vec<char>, c: char) -> (r: bool)
    ensures
        r == chars@.contains(c),
{
    let mut i: usize = 0;
    while i < chars.len()
        invariant
            i <= chars.len(),
            forall|k: int| 0 <= k < i ==> #[trigger] chars@[k] != c,
        decreases chars.len() - i,
    {
        if chars[i] == c {
            proof {
                assert(chars@[i as int] == c);
            }
            return true;
        }
        i += 1;
    }
    false
}

fn pattern_of(path: &Vec<char>) -> (r: String)
    ensures
        r@ == search_pattern(path@),
{
    let mut n: usize = path.len();
    while n > 0 && path[n - 1] == '/'
        invariant
            n <= path.len(),
            trimmed_len(path@, n as int) == trimmed_len(path@, path@.len() as int),
        decreases n,
    {
        n -= 1;
    }
    let mut out = text_between(path, 0, n);
    out.append("/?.lua");
    proof {
        assert(path@.subrange(0, n as int) =~= path@.take(n as int));
    }
    out
}

/// The statement that extends the search path, where there is anything to add.
pub fn lua_search_path(paths: &Vec<String>) -> (r: Result<String, String>)
    ensures
        match r {
            Ok(text) => search_path(texts(paths@)) == Ok::<Seq<char>, Seq<char>>(text@),
            Err(error) => search_path(texts(paths@)) == Err::<Seq<char>, Seq<char>>(error@),
        },
{
    let ghost model = texts(paths@);
    let mut patterns = TextSet::new();
    let mut i: usize = 0;
    while i < paths.len()
        invariant
            i <= paths.len(),
            model == texts(paths@),
            search_patterns(model, i as int, patterns@) == search_patterns(model, 0, Seq::empty()),
        decreases paths.len() - i,
    {
        proof {
            assert(model[i as int] == paths@[i as int]@);
        }
        let path = slash_path(paths[i].as_str());
        if path.len() == 0 {
            return Err("Lua search directory cannot be empty".to_string());
        }
        if holds_char(&path, ';') {
            let text = text_between(&path, 0, path.len());
            proof {
                assert(path@.subrange(0, path@.len() as int) =~= path@);
            }
            return Err(cat2("Lua search directory cannot contain `;`: ", text.as_str()));
        }
        let _ = patterns.insert(pattern_of(&path));
        i += 1;
    }
    if patterns.len() == 0 {
        return Ok(String::new());
    }
    let list = join(&patterns.items, ";");
    Ok(
        cat3(
            "package.path = ",
            lua_string(list.as_str()).as_str(),
            " .. \";\" .. package.path\n",
        ),
    )
}

// ---------------------------------------------------------------------------
// Required modules.
// ---------------------------------------------------------------------------

/// The check of the interface version of a module.
pub open spec fn abi_text(import: ImportModel) -> Seq<char> {
    match import.abi {
        Some(abi) => "assert("@ + import.alias + ".ABI_VERSION == "@ + decimal(abi as nat)
            + ", \"incompatible "@ + import.module + " ABI\")\n"@,
        None => Seq::empty(),
    }
}

/// The lines that require a module.
pub open spec fn require_text(import: ImportModel) -> Seq<char> {
    "local "@ + import.alias + " = require("@ + quoted(import.module) + ")\n"@ + abi_text(import)
}

/// The local names of the members `exports[from..]`.
pub open spec fn exports_text(
    alias: Seq<char>,
    exports: Seq<(Seq<char>, Seq<char>)>,
    from: int,
) -> Seq<char>
    decreases exports.len() - from,
{
    if from < 0 || from >= exports.len() {
        Seq::empty()
    } else {
        "local "@ + exports[from].1 + " = "@ + member_text(alias, exports[from].0) + "\n"@
            + exports_text(alias, exports, from + 1)
    }
}

/// The lines of the imports `imports[from..]`, members included.
pub open spec fn imports_text(imports: Seq<ImportModel>, from: int) -> Seq<char>
    decreases imports.len() - from,
{
    if from < 0 || from >= imports.len() {
        Seq::empty()
    } else {
        require_text(imports[from]) + exports_text(imports[from].alias, imports[from].exports, 0)
            + imports_text(imports, from + 1)
    }
}

/// The lines that require the modules `imports[from..]` but the one named.
pub open spec fn requires_text(imports: Seq<ImportModel>, except: Seq<char>, from: int) -> Seq<char>
    decreases imports.len() - from,
{
    if from < 0 || from >= imports.len() {
        Seq::empty()
    } else if imports[from].module == except {
        requires_text(imports, except, from + 1)
    } else {
        require_text(imports[from]) + requires_text(imports, except, from + 1)
    }
}

/// The local names of the members of `imports[from..]`.
pub open spec fn aliases_text(imports: Seq<ImportModel>, from: int) -> Seq<char>
    decreases imports.len() - from,
{
    if from < 0 || from >= imports.len() {
        Seq::empty()
    } else {
        exports_text(imports[from].alias, imports[from].exports, 0) + aliases_text(
            imports,
            from + 1,
        )
    }
}

/// A part of the head with a blank line behind it, where it holds anything.
pub open spec fn section(text: Seq<char>) -> Seq<char> {
    if text.len() == 0 {
        Seq::empty()
    } else if closes_with(text, "\n"@) {
        text + "\n"@
    } else {
        text + "\n"@ + "\n"@
    }
}

pub fn append_runtime_require(prefix: &mut String, import: &RuntimeImport)
    ensures
        final(prefix)@ == old(prefix)@ + require_text(import.model()),
{
    let ghost before = prefix@;
    let module = lua_string(import.module.as_str());
    prefix.append("local ");
    prefix.append(import.alias.as_str());
    prefix.append(" = require(");
    prefix.append(module.as_str());
    prefix.append(")\n");
    if let Some(abi) = import.abi {
        prefix.append("assert(");
        prefix.append(import.alias.as_str());
        prefix.append(".ABI_VERSION == ");
        prefix.append(decimal_text(abi as u64).as_str());
        prefix.append(", \"incompatible ");
        prefix.append(import.module.as_str());
        prefix.append(" ABI\")\n");
    }
    proof {
        assert(prefix@ =~= before + require_text(import.model()));
    }
}

pub fn append_runtime_export_aliases(prefix: &mut String, import: &RuntimeImport)
    ensures
        final(prefix)@ == old(prefix)@ + exports_text(
            import.model().alias,
            import.model().exports,
            0,
        ),
{
    let ghost start = prefix@;
    let ghost exports = import.model().exports;
    let mut i: usize = 0;
    while i < import.exports.len()
        invariant
            i <= import.exports.len(),
            exports == pairs_model(import.exports@),
            prefix@ + exports_text(import.alias@, exports, i as int) == start + exports_text(
                import.alias@,
                exports,
                0,
            ),
        decreases import.exports.len() - i,
    {
        let ghost before = prefix@;
        proof {
            assert(exports[i as int] == (import.exports@[i as int].0@, import.exports@[i as int].1@));
        }
        let member = lua_member(import.alias.as_str(), import.exports[i].0.as_str());
        prefix.append("local ");
        prefix.append(import.exports[i].1.as_str());
        prefix.append(" = ");
        prefix.append(member.as_str());
        prefix.append("\n");
        i += 1;
        proof {
            assert(prefix@ + exports_text(import.alias@, exports, i as int) =~= before
                + exports_text(import.alias@, exports, i - 1));
        }
    }
    proof {
        assert(prefix@ + Seq::<char>::empty() =~= prefix@);
    }
}

pub fn append_imports(prefix: &mut String, imports: &Vec<RuntimeImport>)
    ensures
        final(prefix)@ == old(prefix)@ + imports_text(imports_model(imports@), 0),
{
    let ghost start = prefix@;
    let ghost model = imports_model(imports@);
    let mut i: usize = 0;
    while i < imports.len()
        invariant
            i <= imports.len(),
            model == imports_model(imports@),
            prefix@ + imports_text(model, i as int) == start + imports_text(model, 0),
        decreases imports.len() - i,
    {
        let ghost before = prefix@;
        proof {
            assert(model[i as int] == imports@[i as int].model());
        }
        append_runtime_require(prefix, &imports[i]);
        append_runtime_export_aliases(prefix, &imports[i]);
        i += 1;
        proof {
            assert(prefix@ + imports_text(model, i as int) =~= before + imports_text(model, i - 1));
        }
    }
    proof {
        assert(prefix@ + Seq::<char>::empty() =~= prefix@);
    }
}

pub fn append_requires(prefix: &mut String, imports: &Vec<RuntimeImport>, except: &str)
    ensures
        final(prefix)@ == old(prefix)@ + requires_text(imports_model(imports@), except@, 0),
{
    let ghost start = prefix@;
    let ghost model = imports_model(imports@);
    let mut i: usize = 0;
    while i < imports.len()
        invariant
            i <= imports.len(),
            model == imports_model(imports@),
            prefix@ + requires_text(model, except@, i as int) == start + requires_text(
                model,
                except@,
                0,
            ),
        decreases imports.len() - i,
    {
        let ghost before = prefix@;
        proof {
            assert(model[i as int] == imports@[i as int].model());
        }
        if !crate::text::same_text(imports[i].module.as_str(), except) {
            append_runtime_require(prefix, &imports[i]);
        }
        i += 1;
        proof {
            assert(prefix@ + requires_text(model, except@, i as int) =~= before + requires_text(
                model,
                except@,
                i - 1,
            ));
        }
    }
    proof {
        assert(prefix@ + Seq::<char>::empty() =~= prefix@);
    }
}

pub fn append_aliases(prefix: &mut String, imports: &Vec<RuntimeImport>)
    ensures
        final(prefix)@ == old(prefix)@ + aliases_text(imports_model(imports@), 0),
{
    let ghost start = prefix@;
    let ghost model = imports_model(imports@);
    let mut i: usize = 0;
    while i < imports.len()
        invariant
            i <= imports.len(),
            model == imports_model(imports@),
            prefix@ + aliases_text(model, i as int) == start + aliases_text(model, 0),
        decreases imports.len() - i,
    {
        let ghost before = prefix@;
        proof {
            assert(model[i as int] == imports@[i as int].model());
        }
        append_runtime_export_aliases(prefix, &imports[i]);
        i += 1;
        proof {
            assert(prefix@ + aliases_text(model, i as int) =~= before + aliases_text(model, i - 1));
        }
    }
    proof {
        assert(prefix@ + Seq::<char>::empty() =~= prefix@);
    }
}

pub fn append_header_section(prefix: &mut String, text: &str)
    ensures
        final(prefix)@ == old(prefix)@ + section(text@),
{
    let ghost before = prefix@;
    if chars_of(text).len() == 0 {
        proof {
            assert(prefix@ =~= before + section(text@));
        }
        return ;
    }
    prefix.append(text);
    if !ends_with(text, "\n") {
        prefix.append("\n");
    }
    prefix.append("\n");
    proof {
        assert(prefix@ =~= before + section(text@));
    }
}

// ---------------------------------------------------------------------------
// Source maps.
// ---------------------------------------------------------------------------

/// A byte range of a generated file with the source range that it came from.
#[derive(Clone, Copy, Debug, PartialEq, Eq, Structural)]
pub struct LuaSourceMapping {
    pub generated_start: usize,
    pub generated_end: usize,
    pub source: SourceRange,
}

/// The mappings behind a head of so many bytes.
pub open spec fn shifted(mappings: Seq<SourceMapping>, offset: nat) -> Seq<LuaSourceMapping> {
    Seq::new(
        mappings.len(),
        |i: int|
            LuaSourceMapping {
                generated_start: (offset + mappings[i].generated_start) as usize,
                generated_end: (offset + mappings[i].generated_end) as usize,
                source: mappings[i].source,
            },
    )
}

/// The head with a blank line behind it, where a body follows without one.
pub open spec fn spaced(prefix: Seq<char>, body: Seq<char>) -> Seq<char> {
    if body.len() > 0 && !closes_with(prefix, "\n\n"@) && body[0] != '\n' {
        prefix + "\n"@
    } else {
        prefix
    }
}

/// The bytes of two texts one behind the other.
pub proof fn lemma_bytes(a: Seq<char>, b: Seq<char>)
    ensures
        encode_utf8(a + b).len() == encode_utf8(a).len() + encode_utf8(b).len(),
    decreases a.len(),
{
    if a.len() == 0 {
        assert(a + b =~= b);
    } else {
        assert((a + b).drop_first() =~= a.drop_first() + b);
        lemma_bytes(a.drop_first(), b);
    }
}

/// Appends a printed body to the head and gives the mappings in the whole text.
pub(crate) fn append_body(prefix: &mut String, printed: Printed, Ghost(entries): Ghost<Seq<EntryModel>>) -> (r:
    Vec<LuaSourceMapping>)
    requires
        printed.source@ == printed_page(entries).out,
        printed.mappings@ == ordered(printed_page(entries).mappings),
    ensures
        final(prefix)@ == spaced(old(prefix)@, printed.source@) + printed.source@,
        r@ == shifted(
            printed.mappings@,
            encode_utf8(spaced(old(prefix)@, printed.source@)).len(),
        ),
{
    let body = chars_of(printed.source.as_str());
    if body.len() > 0 && !ends_with(prefix.as_str(), "\n\n") && body[0] != '\n' {
        prefix.append("\n");
    }
    let ghost head = prefix@;
    let offset = byte_len(prefix.as_str());
    prefix.append(printed.source.as_str());
    let total = byte_len(prefix.as_str());
    let mut out: Vec<LuaSourceMapping> = Vec::new();
    let mut i: usize = 0;
    proof {
        lemma_bytes(head, printed.source@);
        law_mappings_are_ordered(printed_page(entries).mappings);
    }
    while i < printed.mappings.len()
        invariant
            i <= printed.mappings.len(),
            offset == encode_utf8(head).len(),
            total == offset + encode_utf8(printed.source@).len(),
            printed.source@ == printed_page(entries).out,
            printed.mappings@ == ordered(printed_page(entries).mappings),
            printed.mappings@.to_multiset() == printed_page(entries).mappings.to_multiset(),
            out@.len() == i,
            forall|k: int|
                0 <= k < i ==> #[trigger] out@[k] == shifted(printed.mappings@, offset as nat)[k],
        decreases printed.mappings.len() - i,
    {
        let mapping = printed.mappings[i];
        proof {
            lemma_member(printed.mappings@, printed_page(entries).mappings, i as int);
            let k = choose|k: int|
                0 <= k < printed_page(entries).mappings.len() && printed_page(entries).mappings[k]
                    == mapping;
            law_mappings_lie_in_the_text(entries, k);
        }
        out.push(
            LuaSourceMapping {
                generated_start: offset + mapping.generated_start,
                generated_end: offset + mapping.generated_end,
                source: mapping.source,
            },
        );
        i += 1;
    }
    proof {
        assert(out@ =~= shifted(printed.mappings@, offset as nat));
    }
    out
}

proof fn lemma_member(a: Seq<SourceMapping>, b: Seq<SourceMapping>, i: int)
    requires
        a.to_multiset() == b.to_multiset(),
        0 <= i < a.len(),
    ensures
        b.contains(a[i]),
{
    broadcast use vstd::seq_lib::group_to_multiset_ensures;

    assert(a.to_multiset().count(a[i]) > 0) by {
        assert(a.contains(a[i]));
    }
    assert(b.to_multiset().count(a[i]) > 0);
}

} // verus!
