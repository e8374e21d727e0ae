//! Builtin identities, the code generation rules that declarations cannot
//! express, and the metadata of the standard library.

use vstd::prelude::*;

use crate::order::{text_before, text_is_before};
use crate::table::Table;

verus! {

/// A type, variant or function that the compiler knows by itself.
#[derive(Clone, Copy, Debug, PartialEq, Eq, PartialOrd, Ord, Hash, Structural)]
pub enum BuiltinId {
    TypeString,
    TypeVec,
    TypeHashMap,
    TypeOption,
    TypeResult,
    VariantOptionSome,
    VariantOptionNone,
    VariantResultOk,
    VariantResultErr,
    AssociatedVecNew,
    AssociatedHashMapNew,
}

/// A trait that the compiler knows by itself.
#[derive(Clone, Copy, Debug, PartialEq, Eq, PartialOrd, Ord, Hash, Structural)]
pub enum BuiltinTraitId {
    Add,
    Sub,
    Mul,
    Div,
    Rem,
    Neg,
    PartialEq,
    Eq,
}

/// How a builtin path or call becomes Lua.
#[derive(Debug)]
pub enum CodegenRule {
    /// The path is Lua `nil` (`Option::None`).
    Nil,
    /// The first argument as it stands (`Some(v)` is `v`).
    InlineArg,
    /// A table constructor around the arguments.
    TableCtor { tag: Option<&'static str> },
    /// The tagged result value.
    TaggedResult { ok: bool },
}

/// The rule of each builtin that has one.
#[derive(Debug)]
pub struct CodegenRules {}

/// The default rules: an option is its bare value or `nil`, a result is tagged.
pub open spec fn spec_rule(builtin: BuiltinId) -> Option<CodegenRule> {
    match builtin {
        BuiltinId::VariantOptionNone => Some(CodegenRule::Nil),
        BuiltinId::VariantOptionSome => Some(CodegenRule::InlineArg),
        BuiltinId::VariantResultOk => Some(CodegenRule::TaggedResult { ok: true }),
        BuiltinId::VariantResultErr => Some(CodegenRule::TaggedResult { ok: false }),
        _ => None,
    }
}

impl Default for CodegenRules {
    fn default() -> (r: Self) {
        CodegenRules {  }
    }
}

impl CodegenRules {
    /// The rule of a builtin.
    pub fn get(&self, builtin: BuiltinId) -> (r: Option<CodegenRule>)
        ensures
            r == spec_rule(builtin),
    {
        match builtin {
            BuiltinId::VariantOptionNone => Some(CodegenRule::Nil),
            BuiltinId::VariantOptionSome => Some(CodegenRule::InlineArg),
            BuiltinId::VariantResultOk => Some(CodegenRule::TaggedResult { ok: true }),
            BuiltinId::VariantResultErr => Some(CodegenRule::TaggedResult { ok: false }),
            _ => None,
        }
    }
}

/// How calls into a runtime module are dispatched.
#[derive(Clone, Copy, Debug, PartialEq, Eq, Structural)]
pub enum StdDispatch {
    Module,
    Method,
}

/// A Lua module that backs a standard-library declaration.
#[derive(Debug)]
pub struct RuntimeModule {
    pub runtime: String,
    pub export: Option<String>,
    pub alias: String,
    pub abi: Option<u32>,
    pub dispatch: StdDispatch,
}

/// A declaration that the language itself refers to.
#[derive(Clone, Copy, Debug, PartialEq, Eq, PartialOrd, Ord, Structural)]
pub enum LanguageItem {
    Option,
    OptionSome,
    OptionNone,
    OptionMap,
    OptionUnwrap,
    OptionExpect,
    OptionUnwrapOr,
    OptionIsSome,
    OptionIsNone,
    Result,
    ResultOk,
    ResultErr,
    ResultMap,
    ResultUnwrap,
    ResultExpect,
    ResultUnwrapOr,
    ResultIsOk,
    ResultIsErr,
}

impl LanguageItem {
    /// The key of the item in the library manifest.
    pub open spec fn spec_key(self) -> Seq<char> {
        match self {
            LanguageItem::Option => "option"@,
            LanguageItem::OptionSome => "option_some"@,
            LanguageItem::OptionNone => "option_none"@,
            LanguageItem::OptionMap => "option_map"@,
            LanguageItem::OptionUnwrap => "option_unwrap"@,
            LanguageItem::OptionExpect => "option_expect"@,
            LanguageItem::OptionUnwrapOr => "option_unwrap_or"@,
            LanguageItem::OptionIsSome => "option_is_some"@,
            LanguageItem::OptionIsNone => "option_is_none"@,
            LanguageItem::Result => "result"@,
            LanguageItem::ResultOk => "result_ok"@,
            LanguageItem::ResultErr => "result_err"@,
            LanguageItem::ResultMap => "result_map"@,
            LanguageItem::ResultUnwrap => "result_unwrap"@,
            LanguageItem::ResultExpect => "result_expect"@,
            LanguageItem::ResultUnwrapOr => "result_unwrap_or"@,
            LanguageItem::ResultIsOk => "result_is_ok"@,
            LanguageItem::ResultIsErr => "result_is_err"@,
        }
    }

    /// The key of the item in the library manifest.
    pub fn key(self) -> (r: &'static str)
        ensures
            r@ == self.spec_key(),
    {
        match self {
            LanguageItem::Option => "option",
            LanguageItem::OptionSome => "option_some",
            LanguageItem::OptionNone => "option_none",
            LanguageItem::OptionMap => "option_map",
            LanguageItem::OptionUnwrap => "option_unwrap",
            LanguageItem::OptionExpect => "option_expect",
            LanguageItem::OptionUnwrapOr => "option_unwrap_or",
            LanguageItem::OptionIsSome => "option_is_some",
            LanguageItem::OptionIsNone => "option_is_none",
            LanguageItem::Result => "result",
            LanguageItem::ResultOk => "result_ok",
            LanguageItem::ResultErr => "result_err",
            LanguageItem::ResultMap => "result_map",
            LanguageItem::ResultUnwrap => "result_unwrap",
            LanguageItem::ResultExpect => "result_expect",
            LanguageItem::ResultUnwrapOr => "result_unwrap_or",
            LanguageItem::ResultIsOk => "result_is_ok",
            LanguageItem::ResultIsErr => "result_is_err",
        }
    }
}

/// The runtime bindings of an installed standard library.
#[derive(Debug)]
pub struct StandardMetadata {
    pub runtime_modules: Table<u32, RuntimeModule>,
    pub named_runtime_modules: Table<String, RuntimeModule>,
    pub runtime_helpers: Table<String, RuntimeModule>,
    pub language_items: Table<String, LanguageItem>,
}

impl StandardMetadata {
    /// The runtime module behind a declaration file.
    pub fn runtime_module(&self, semantic_file: u32) -> (r: Option<&RuntimeModule>)
        ensures
            match r {
                Some(m) => self.runtime_modules.at(semantic_file) == Some(*m),
                None => self.runtime_modules.at(semantic_file) is None,
            },
    {
        self.runtime_modules.get(&semantic_file)
    }

    /// The runtime module of a standard module name.
    pub fn named_runtime_module(&self, name: &str) -> (r: Option<&RuntimeModule>)
        ensures
            match r {
                Some(m) => self.named_runtime_modules.at(name@) == Some(*m),
                None => self.named_runtime_modules.at(name@) is None,
            },
    {
        self.named_runtime_modules.get(&name.to_string())
    }

    /// The module that holds a runtime helper.
    pub fn runtime_helper(&self, name: &str) -> (r: Option<&RuntimeModule>)
        ensures
            match r {
                Some(m) => self.runtime_helpers.at(name@) == Some(*m),
                None => self.runtime_helpers.at(name@) is None,
            },
    {
        self.runtime_helpers.get(&name.to_string())
    }
}

/// A list in the order of its names, with one more entry.
pub open spec fn with_entry(
    list: Seq<(Seq<char>, LanguageItem)>,
    entry: (Seq<char>, LanguageItem),
) -> Seq<(Seq<char>, LanguageItem)>
    decreases list.len(),
{
    if list.len() == 0 || !text_before(entry.0, list.last().0) {
        list.push(entry)
    } else {
        with_entry(list.drop_last(), entry).push(list.last())
    }
}

/// The first `n` entries in the order of their names.
pub open spec fn entries_in_order(entries: Seq<(String, LanguageItem)>, n: int) -> Seq<
    (Seq<char>, LanguageItem),
>
    decreases n,
{
    if n <= 0 || n > entries.len() {
        Seq::empty()
    } else {
        with_entry(
            entries_in_order(entries, n - 1),
            (entries[n - 1].0@, entries[n - 1].1),
        )
    }
}

/// Entries over mathematical texts.
pub open spec fn entries_model(list: Seq<(&str, LanguageItem)>) -> Seq<
    (Seq<char>, LanguageItem),
> {
    Seq::new(list.len(), |i: int| (list[i].0@, list[i].1))
}

fn insert_entry<'a>(list: &mut Vec<(&'a str, LanguageItem)>, name: &'a str, item: LanguageItem)
    ensures
        entries_model(final(list)@) == with_entry(entries_model(old(list)@), (name@, item)),
{
    let ghost before = entries_model(list@);
    let ghost entry = (name@, item);
    let mut at: usize = list.len();
    proof {
        assert(before.take(at as int) =~= before);
        assert(with_entry(before.take(at as int), entry) + before.skip(at as int) =~= with_entry(
            before,
            entry,
        ));
    }
    while at > 0 && text_is_before(name, list[at - 1].0)
        invariant
            at <= list@.len(),
            before == entries_model(list@),
            *list == *old(list),
            entry == (name@, item),
            with_entry(before.take(at as int), entry) + before.skip(at as int) == with_entry(
                before,
                entry,
            ),
        decreases at,
    {
        proof {
            let head = before.take(at as int);
            assert(head.last() == before[at - 1]);
            assert(head.drop_last() =~= before.take(at - 1));
            assert(before.skip(at - 1) =~= seq![head.last()] + before.skip(at as int));
            assert(with_entry(before.take(at - 1), entry) + before.skip(at - 1) =~= with_entry(
                head,
                entry,
            ) + before.skip(at as int));
        }
        at -= 1;
    }
    proof {
        let head = before.take(at as int);
        assert(at > 0 ==> head.last() == before[at - 1]);
        assert(with_entry(head, entry) == head.push(entry));
    }
    list.insert(at, (name, item));
    proof {
        assert(entries_model(list@) =~= before.take(at as int).push(entry) + before.skip(at as int));
    }
}

impl StandardMetadata {
    /// The language items with the paths of their declarations, in the order of
    /// the paths.
    pub fn language_items(&self) -> (r: Vec<(&str, LanguageItem)>)
        ensures
            entries_model(r@) == entries_in_order(
                self.language_items.entries@,
                self.language_items.entries@.len() as int,
            ),
    {
        let mut out: Vec<(&str, LanguageItem)> = Vec::new();
        let mut i: usize = 0;
        proof {
            assert(entries_model(out@) =~= Seq::empty());
        }
        while i < self.language_items.entries.len()
            invariant
                i <= self.language_items.entries.len(),
                entries_model(out@) == entries_in_order(
                    self.language_items.entries@,
                    i as int,
                ),
            decreases self.language_items.entries.len() - i,
        {
            let entry = &self.language_items.entries[i];
            insert_entry(&mut out, entry.0.as_str(), entry.1);
            i += 1;
        }
        out
    }
}

} // verus!
