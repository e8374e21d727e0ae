//! Attributes: `#[name]` and `#[name(items)]`.

use vstd::prelude::*;

use crate::ast::{Attribute, MetaItem, MetaValue};
use crate::codegen::syntax::{literal_value, rua_int_value};
use crate::parser::grammar::{accept, bump, err, expect, nest_error, rem, unquoted, At, Input, Out};
use crate::parser::state::{kept, unquote, ParseError, Parser};
use crate::text::{cat3, same_text};
use crate::token::RuaTokenKind as T;
use crate::tree::{
    attributes_tree, meta_items_tree, meta_values_tree, AttributeTree, MetaItemTree, MetaValueTree,
};

verus! {

/// Whether a token is a word of an attribute: an identifier or a keyword.
pub open spec fn is_word(kind: T) -> bool {
    match kind {
        T::Ident | T::KwAs | T::KwBreak | T::KwContinue | T::KwDyn | T::KwElse | T::KwEnum
        | T::KwExtern | T::KwFalse | T::KwFn | T::KwFor | T::KwIf | T::KwImpl | T::KwIn
        | T::KwLet | T::KwLoop | T::KwMatch | T::KwMod | T::KwMut | T::KwPub | T::KwReturn
        | T::KwSelf | T::KwStruct | T::KwTrait | T::KwTrue | T::KwUse | T::KwWhile => true,
        _ => false,
    }
}

/// A word.
#[verifier::opaque]
pub open spec fn word(i: Input, p: At) -> Out<Seq<char>> {
    if is_word(i.kind(p.cur)) {
        let name = i.text(p.cur);
        match bump(i, p) {
            Out::Fail(f) => Out::Fail(f),
            Out::Done(p, _) => Out::Done(p, name),
        }
    } else {
        Out::Fail(
            err(
                i,
                p,
                "expected attribute name, found `"@ + i.kind(p.cur).spec_user_string() + "`"@,
            ),
        )
    }
}

/// The words behind `::`, behind those before.
#[verifier::opaque]
pub open spec fn words(i: Input, p: At, done: Seq<char>) -> Out<Seq<char>>
    decreases rem(i, p),
{
    if i.kind(p.cur) == T::ColonColon {
        let q = p;
        match bump(i, p) {
            Out::Fail(f) => Out::Fail(f),
            Out::Done(p, _) => match word(i, p) {
                Out::Fail(f) => Out::Fail(f),
                Out::Done(p, name) => if rem(i, p) < rem(i, q) {
                    words(i, p, done + "::"@ + name)
                } else {
                    Out::Done(p, done)
                },
            },
        }
    } else {
        Out::Done(p, done)
    }
}

/// Words with `::` between them.
#[verifier::opaque]
pub open spec fn word_path(i: Input, p: At) -> Out<Seq<char>> {
    match word(i, p) {
        Out::Fail(f) => Out::Fail(f),
        Out::Done(p, name) => words(i, p, name),
    }
}

/// A value: a string, an integer, a float, a truth value, a list of values in
/// brackets, or a path.
pub open spec fn meta_value(i: Input, p: At, d: nat) -> Out<MetaValueTree>
    decreases i.max_nesting - d, 1int, rem(i, p),
{
    let text = i.text(p.cur);
    match i.kind(p.cur) {
        T::Str => match bump(i, p) {
            Out::Fail(f) => Out::Fail(f),
            Out::Done(p, _) => Out::Done(p, MetaValueTree::String(unquoted(text))),
        },
        T::Int => match literal_value(text) {
            None => Out::Fail(err(i, p, "attribute integer is out of range"@)),
            Some(value) => match bump(i, p) {
                Out::Fail(f) => Out::Fail(f),
                Out::Done(p, _) => Out::Done(p, MetaValueTree::Integer(value)),
            },
        },
        T::Float => match bump(i, p) {
            Out::Fail(f) => Out::Fail(f),
            Out::Done(p, _) => Out::Done(p, MetaValueTree::Float(text)),
        },
        T::KwTrue => match bump(i, p) {
            Out::Fail(f) => Out::Fail(f),
            Out::Done(p, _) => Out::Done(p, MetaValueTree::Bool(true)),
        },
        T::KwFalse => match bump(i, p) {
            Out::Fail(f) => Out::Fail(f),
            Out::Done(p, _) => Out::Done(p, MetaValueTree::Bool(false)),
        },
        T::LBracket => if d >= i.max_nesting {
            Out::Fail(nest_error(i, p))
        } else {
            match bump(i, p) {
                Out::Fail(f) => Out::Fail(f),
                Out::Done(p, _) => match meta_values(i, p, d + 1, Seq::empty()) {
                    Out::Fail(f) => Out::Fail(f),
                    Out::Done(p, list) => match expect(i, p, T::RBracket) {
                        Out::Fail(f) => Out::Fail(f),
                        Out::Done(p, _) => Out::Done(p, MetaValueTree::List(list)),
                    },
                },
            }
        },
        other => if is_word(other) {
            match word_path(i, p) {
                Out::Fail(f) => Out::Fail(f),
                Out::Done(p, path) => Out::Done(p, MetaValueTree::Path(path)),
            }
        } else {
            Out::Fail(
                err(i, p, "expected attribute value, found `"@ + other.spec_user_string() + "`"@),
            )
        },
    }
}

/// Values up to the closing bracket, behind those before.
pub open spec fn meta_values(i: Input, p: At, d: nat, done: Seq<MetaValueTree>) -> Out<
    Seq<MetaValueTree>,
>
    decreases i.max_nesting - d, 2int, rem(i, p),
{
    if i.kind(p.cur) == T::RBracket {
        Out::Done(p, done)
    } else {
        let q = p;
        match meta_value(i, p, d) {
            Out::Fail(f) => Out::Fail(f),
            Out::Done(p, one) => match accept(i, p, T::Comma) {
                Out::Fail(f) => Out::Fail(f),
                Out::Done(p, more) => if more && rem(i, p) < rem(i, q) {
                    meta_values(i, p, d, done.push(one))
                } else {
                    Out::Done(p, done.push(one))
                },
            },
        }
    }
}

/// An entry of an attribute: a word, a named value, or a named list of entries.
pub open spec fn meta_item(i: Input, p: At, d: nat) -> Out<MetaItemTree>
    decreases i.max_nesting - d, 1int, rem(i, p),
{
    match word_path(i, p) {
        Out::Fail(f) => Out::Fail(f),
        Out::Done(p, name) => if i.kind(p.cur) == T::Eq {
            match bump(i, p) {
                Out::Fail(f) => Out::Fail(f),
                Out::Done(p, _) => match meta_value(i, p, d) {
                    Out::Fail(f) => Out::Fail(f),
                    Out::Done(p, value) => Out::Done(p, MetaItemTree::NameValue { name, value }),
                },
            }
        } else if i.kind(p.cur) == T::LParen {
            if d >= i.max_nesting {
                Out::Fail(nest_error(i, p))
            } else {
                match bump(i, p) {
                    Out::Fail(f) => Out::Fail(f),
                    Out::Done(p, _) => match meta_items(i, p, d + 1, Seq::empty()) {
                        Out::Fail(f) => Out::Fail(f),
                        Out::Done(p, items) => match expect(i, p, T::RParen) {
                            Out::Fail(f) => Out::Fail(f),
                            Out::Done(p, _) => Out::Done(p, MetaItemTree::List { name, items }),
                        },
                    },
                }
            }
        } else {
            Out::Done(p, MetaItemTree::Word(name))
        },
    }
}

/// Entries up to the closing parenthesis, behind those before.
pub open spec fn meta_items(i: Input, p: At, d: nat, done: Seq<MetaItemTree>) -> Out<
    Seq<MetaItemTree>,
>
    decreases i.max_nesting - d, 2int, rem(i, p),
{
    if i.kind(p.cur) == T::RParen {
        Out::Done(p, done)
    } else {
        let q = p;
        match meta_item(i, p, d) {
            Out::Fail(f) => Out::Fail(f),
            Out::Done(p, one) => match accept(i, p, T::Comma) {
                Out::Fail(f) => Out::Fail(f),
                Out::Done(p, more) => if more && rem(i, p) < rem(i, q) {
                    meta_items(i, p, d, done.push(one))
                } else {
                    Out::Done(p, done.push(one))
                },
            },
        }
    }
}

/// An attribute.
#[verifier::opaque]
pub open spec fn attribute(i: Input, p: At, d: nat) -> Out<AttributeTree> {
    match expect(i, p, T::Hash) {
        Out::Fail(f) => Out::Fail(f),
        Out::Done(p, _) => match expect(i, p, T::LBracket) {
            Out::Fail(f) => Out::Fail(f),
            Out::Done(p, _) => match word_path(i, p) {
                Out::Fail(f) => Out::Fail(f),
                Out::Done(p, name) => if i.kind(p.cur) == T::LParen {
                    match bump(i, p) {
                        Out::Fail(f) => Out::Fail(f),
                        Out::Done(p, _) => match meta_items(i, p, d, Seq::empty()) {
                            Out::Fail(f) => Out::Fail(f),
                            Out::Done(p, items) => match expect(i, p, T::RParen) {
                                Out::Fail(f) => Out::Fail(f),
                                Out::Done(p, _) => match expect(i, p, T::RBracket) {
                                    Out::Fail(f) => Out::Fail(f),
                                    Out::Done(p, _) => Out::Done(p, AttributeTree { name, items }),
                                },
                            },
                        },
                    }
                } else {
                    match expect(i, p, T::RBracket) {
                        Out::Fail(f) => Out::Fail(f),
                        Out::Done(p, _) => Out::Done(
                            p,
                            AttributeTree { name, items: Seq::empty() },
                        ),
                    }
                },
            },
        },
    }
}

/// The attributes before an item or a member, behind those before.
#[verifier::opaque]
pub open spec fn attributes(i: Input, p: At, d: nat, done: Seq<AttributeTree>) -> Out<
    Seq<AttributeTree>,
>
    decreases rem(i, p),
{
    if i.kind(p.cur) == T::Hash {
        let q = p;
        match attribute(i, p, d) {
            Out::Fail(f) => Out::Fail(f),
            Out::Done(p, one) => if rem(i, p) < rem(i, q) {
                attributes(i, p, d, done.push(one))
            } else {
                Out::Done(p, done)
            },
        }
    } else {
        Out::Done(p, done)
    }
}

/// Whether an annotation declaration stands ahead: `annotation` and a name behind
/// it. The word is no keyword elsewhere.
pub open spec fn annotation_ahead(i: Input, p: At) -> bool {
    i.kind(p.cur) == T::Ident && i.text(p.cur) == "annotation"@ && i.kind(p.cur + 1) == T::Ident
}

fn is_word_kind(kind: T) -> (r: bool)
    ensures
        r == is_word(kind),
{
    match kind {
        T::Ident | T::KwAs | T::KwBreak | T::KwContinue | T::KwDyn | T::KwElse | T::KwEnum
        | T::KwExtern | T::KwFalse | T::KwFn | T::KwFor | T::KwIf | T::KwImpl | T::KwIn
        | T::KwLet | T::KwLoop | T::KwMatch | T::KwMod | T::KwMut | T::KwPub | T::KwReturn
        | T::KwSelf | T::KwStruct | T::KwTrait | T::KwTrue | T::KwUse | T::KwWhile => true,
        _ => false,
    }
}

impl<'a> Parser<'a> {
    /// A word.
    pub fn parse_word(&mut self) -> (r: Result<String, ParseError>)
        requires
            old(self).wf(),
        ensures
            match r {
                Ok(v) => kept(*old(self), *final(self), true) && word(old(self).input(), old(self).at()) == Out::Done(final(self).at(), v@),
                Err(e) => word(old(self).input(), old(self).at()) == Out::<Seq<char>>::Fail(e.failure()),
            },
    {
        proof {
            reveal(word);
        }
        if is_word_kind(self.cur()) {
            let name = self.text();
            self.bump()?;
            Ok(name)
        } else {
            Err(self.err(cat3("expected attribute name, found `", self.cur().user_string(), "`")))
        }
    }

    /// Words with `::` between them.
    pub fn parse_word_path(&mut self) -> (r: Result<String, ParseError>)
        requires
            old(self).wf(),
        ensures
            match r {
                Ok(v) => kept(*old(self), *final(self), true) && word_path(old(self).input(), old(self).at()) == Out::Done(final(self).at(), v@),
                Err(e) => word_path(old(self).input(), old(self).at()) == Out::<Seq<char>>::Fail(e.failure()),
            },
    {
        proof {
            reveal(word_path);
        }
        let mut name = self.parse_word()?;
        let ghost behind_word = self.at();
        let ghost first = name@;
        proof {
            reveal_with_fuel(words, 1);
        }
        while self.cur() == T::ColonColon
            invariant
                kept(*old(self), *self, true),
                words(self.input(), self.at(), name@) == words(
                    old(self).input(),
                    behind_word,
                    first,
                ),
                word_path(old(self).input(), old(self).at()) == words(
                    old(self).input(),
                    behind_word,
                    first,
                ),
            decreases rem(self.input(), self.at()),
        {
            proof {
                reveal_with_fuel(words, 1);
            }
            let ghost here = words(self.input(), self.at(), name@);
            self.bump()?;
            let next = self.parse_word()?;
            let whole = cat3(name.as_str(), "::", next.as_str());
            name = whole;
            proof {
                assert(here == words(self.input(), self.at(), name@));
            }
        }
        proof {
            reveal_with_fuel(words, 1);
        }
        Ok(name)
    }

    /// A value.
    pub fn parse_meta_value(&mut self) -> (r: Result<MetaValue, ParseError>)
        requires
            old(self).wf(),
        ensures
            match r {
                Ok(v) => kept(*old(self), *final(self), true) && meta_value(old(self).input(), old(self).at(), old(self).nesting as nat) == Out::Done(final(self).at(), v.tree()),
                Err(e) => meta_value(old(self).input(), old(self).at(), old(self).nesting as nat) == Out::<MetaValueTree>::Fail(e.failure()),
            },
        decreases
            old(self).max_nesting - old(self).nesting,
            1int,
            rem(old(self).input(), old(self).at()),
    {
        match self.cur() {
            T::Str => {
                let text = self.text();
                self.bump()?;
                Ok(MetaValue::String(unquote(text.as_str())))
            },
            T::Int => {
                let text = self.text();
                match rua_int_value(text.as_str()) {
                    None => Err(self.err("attribute integer is out of range".to_string())),
                    Some(value) => {
                        self.bump()?;
                        Ok(MetaValue::Integer(value))
                    },
                }
            },
            T::Float => {
                let text = self.text();
                self.bump()?;
                Ok(MetaValue::Float(text))
            },
            T::KwTrue => {
                self.bump()?;
                Ok(MetaValue::Bool(true))
            },
            T::KwFalse => {
                self.bump()?;
                Ok(MetaValue::Bool(false))
            },
            T::LBracket => {
                if self.nesting >= self.max_nesting {
                    return Err(self.nesting_error());
                }
                self.bump()?;
                self.nesting = self.nesting + 1;
                match self.parse_meta_values() {
                    Ok(list) => {
                        self.nesting = self.nesting - 1;
                        self.expect(T::RBracket)?;
                        Ok(MetaValue::List(list))
                    },
                    Err(error) => Err(error),
                }
            },
            other => {
                if is_word_kind(other) {
                    let path = self.parse_word_path()?;
                    Ok(MetaValue::Path(path))
                } else {
                    Err(self.err(cat3("expected attribute value, found `", other.user_string(), "`")))
                }
            },
        }
    }

    /// Values up to the closing bracket.
    pub fn parse_meta_values(&mut self) -> (r: Result<Vec<MetaValue>, ParseError>)
        requires
            old(self).wf(),
        ensures
            match r {
                Ok(v) => kept(*old(self), *final(self), false) && meta_values(old(self).input(), old(self).at(), old(self).nesting as nat, Seq::empty()) == Out::Done(final(self).at(), meta_values_tree(v@)),
                Err(e) => meta_values(old(self).input(), old(self).at(), old(self).nesting as nat, Seq::empty()) == Out::<Seq<MetaValueTree>>::Fail(e.failure()),
            },
        decreases
            old(self).max_nesting - old(self).nesting,
            2int,
            rem(old(self).input(), old(self).at()),
    {
        let mut out: Vec<MetaValue> = Vec::new();
        proof {
            assert(meta_values_tree(out@) =~= Seq::empty());
        }
        loop
            invariant
                kept(*old(self), *self, false),
                meta_values(self.input(), self.at(), self.nesting as nat, meta_values_tree(out@)) == meta_values(
                    old(self).input(),
                    old(self).at(),
                    old(self).nesting as nat,
                    Seq::empty(),
                ),
            decreases rem(self.input(), self.at()),
        {
            let ghost here = meta_values(self.input(), self.at(), self.nesting as nat, meta_values_tree(out@));
            if self.cur() == T::RBracket {
                return Ok(out);
            }
            let one = self.parse_meta_value()?;
            let ghost had = meta_values_tree(out@);
            let ghost model = one.tree();
            out.push(one);
            proof {
                assert(meta_values_tree(out@) =~= had.push(model));
            }
            let more = self.accept(T::Comma)?;
            if !more {
                return Ok(out);
            }
            proof {
                assert(here == meta_values(self.input(), self.at(), self.nesting as nat, meta_values_tree(out@)));
            }
        }
    }

    /// An entry of an attribute.
    pub fn parse_meta_item(&mut self) -> (r: Result<MetaItem, ParseError>)
        requires
            old(self).wf(),
        ensures
            match r {
                Ok(v) => kept(*old(self), *final(self), true) && meta_item(old(self).input(), old(self).at(), old(self).nesting as nat) == Out::Done(final(self).at(), v.tree()),
                Err(e) => meta_item(old(self).input(), old(self).at(), old(self).nesting as nat) == Out::<MetaItemTree>::Fail(e.failure()),
            },
        decreases
            old(self).max_nesting - old(self).nesting,
            1int,
            rem(old(self).input(), old(self).at()),
    {
        let name = self.parse_word_path()?;
        if self.cur() == T::Eq {
            self.bump()?;
            let value = self.parse_meta_value()?;
            return Ok(MetaItem::NameValue { name, value });
        }
        if self.cur() == T::LParen {
            if self.nesting >= self.max_nesting {
                return Err(self.nesting_error());
            }
            self.bump()?;
            self.nesting = self.nesting + 1;
            return match self.parse_meta_items() {
                Ok(items) => {
                    self.nesting = self.nesting - 1;
                    self.expect(T::RParen)?;
                    Ok(MetaItem::List { name, items })
                },
                Err(error) => Err(error),
            };
        }
        Ok(MetaItem::Word(name))
    }

    /// Entries up to the closing parenthesis.
    pub fn parse_meta_items(&mut self) -> (r: Result<Vec<MetaItem>, ParseError>)
        requires
            old(self).wf(),
        ensures
            match r {
                Ok(v) => kept(*old(self), *final(self), false) && meta_items(old(self).input(), old(self).at(), old(self).nesting as nat, Seq::empty()) == Out::Done(final(self).at(), meta_items_tree(v@)),
                Err(e) => meta_items(old(self).input(), old(self).at(), old(self).nesting as nat, Seq::empty()) == Out::<Seq<MetaItemTree>>::Fail(e.failure()),
            },
        decreases
            old(self).max_nesting - old(self).nesting,
            2int,
            rem(old(self).input(), old(self).at()),
    {
        let mut out: Vec<MetaItem> = Vec::new();
        proof {
            assert(meta_items_tree(out@) =~= Seq::empty());
        }
        loop
            invariant
                kept(*old(self), *self, false),
                meta_items(self.input(), self.at(), self.nesting as nat, meta_items_tree(out@)) == meta_items(
                    old(self).input(),
                    old(self).at(),
                    old(self).nesting as nat,
                    Seq::empty(),
                ),
            decreases rem(self.input(), self.at()),
        {
            let ghost here = meta_items(self.input(), self.at(), self.nesting as nat, meta_items_tree(out@));
            if self.cur() == T::RParen {
                return Ok(out);
            }
            let one = self.parse_meta_item()?;
            let ghost had = meta_items_tree(out@);
            let ghost model = one.tree();
            out.push(one);
            proof {
                assert(meta_items_tree(out@) =~= had.push(model));
            }
            let more = self.accept(T::Comma)?;
            if !more {
                return Ok(out);
            }
            proof {
                assert(here == meta_items(self.input(), self.at(), self.nesting as nat, meta_items_tree(out@)));
            }
        }
    }

    /// An attribute.
    pub fn parse_attribute(&mut self) -> (r: Result<Attribute, ParseError>)
        requires
            old(self).wf(),
        ensures
            match r {
                Ok(v) => kept(*old(self), *final(self), true) && attribute(old(self).input(), old(self).at(), old(self).nesting as nat) == Out::Done(final(self).at(), v.tree()),
                Err(e) => attribute(old(self).input(), old(self).at(), old(self).nesting as nat) == Out::<AttributeTree>::Fail(e.failure()),
            },
    {
        proof {
            reveal(attribute);
        }
        self.expect(T::Hash)?;
        self.expect(T::LBracket)?;
        let name = self.parse_word_path()?;
        if self.cur() == T::LParen {
            self.bump()?;
            let items = self.parse_meta_items()?;
            self.expect(T::RParen)?;
            self.expect(T::RBracket)?;
            Ok(Attribute { name, items })
        } else {
            self.expect(T::RBracket)?;
            let items: Vec<MetaItem> = Vec::new();
            proof {
                assert(meta_items_tree(items@) =~= Seq::empty());
            }
            Ok(Attribute { name, items })
        }
    }

    /// The attributes before an item or a member.
    pub fn parse_attributes(&mut self) -> (r: Result<Vec<Attribute>, ParseError>)
        requires
            old(self).wf(),
        ensures
            match r {
                Ok(v) => kept(*old(self), *final(self), false) && attributes(old(self).input(), old(self).at(), old(self).nesting as nat, Seq::empty()) == Out::Done(final(self).at(), attributes_tree(v@)),
                Err(e) => attributes(old(self).input(), old(self).at(), old(self).nesting as nat, Seq::empty()) == Out::<Seq<AttributeTree>>::Fail(e.failure()),
            },
    {
        let mut out: Vec<Attribute> = Vec::new();
        proof {
            assert(attributes_tree(out@) =~= Seq::empty());
        }
        while self.cur() == T::Hash
            invariant
                kept(*old(self), *self, false),
                attributes(self.input(), self.at(), self.nesting as nat, attributes_tree(out@))
                    == attributes(
                    old(self).input(),
                    old(self).at(),
                    old(self).nesting as nat,
                    Seq::empty(),
                ),
            decreases rem(self.input(), self.at()),
        {
            proof {
                reveal_with_fuel(attributes, 1);
            }
            let ghost here = attributes(
                self.input(),
                self.at(),
                self.nesting as nat,
                attributes_tree(out@),
            );
            let one = self.parse_attribute()?;
            let ghost had = attributes_tree(out@);
            let ghost model = one.tree();
            out.push(one);
            proof {
                assert(attributes_tree(out@) =~= had.push(model));
                assert(here == attributes(
                    self.input(),
                    self.at(),
                    self.nesting as nat,
                    attributes_tree(out@),
                ));
            }
        }
        proof {
            reveal_with_fuel(attributes, 1);
        }
        Ok(out)
    }

    /// Whether an annotation declaration stands ahead.
    pub fn is_annotation_ahead(&self) -> (r: bool)
        requires
            self.wf(),
        ensures
            r == annotation_ahead(self.input(), self.at()),
    {
        proof {
            self.lexer.lemma_next();
        }
        self.cur() == T::Ident && same_text(self.lexer.current_text(), "annotation")
            && self.lexer.peek_next() == T::Ident
    }
}

} // verus!
