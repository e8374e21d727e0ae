//! Names, bounds and generic parameters.

use vstd::prelude::*;

use crate::ast::{GenericParam, TraitRef};
use crate::parser::grammar::{
    bounds, generic_list, generics, named_from, optional_bounds, path_rest, qualified_rest, rem,
    segments, skip_from, skip_generics, where_clause, where_list, with_bounds, Out,
};
use crate::parser::state::{kept, ParseError, Parser};
use crate::text::{cat3, same_text, texts};
use crate::token::RuaTokenKind as T;
use crate::tree::{bounds_tree, generics_tree, GenericParamTree, TraitRefTree};

verus! {

/// Gives the first parameter with a name more bounds.
fn add_bounds(generics: &mut Vec<GenericParam>, name: &str, more: Vec<TraitRef>)
    ensures
        generics_tree(final(generics)@) == with_bounds(
            generics_tree(old(generics)@),
            name@,
            bounds_tree(more@),
        ),
{
    let ghost start = generics_tree(generics@);
    let mut k: usize = 0;
    while k < generics.len() && !same_text(generics[k].name.as_str(), name)
        invariant
            k <= generics.len(),
            generics@ == old(generics)@,
            start == generics_tree(generics@),
            named_from(start, name@, k as int) == named_from(start, name@, 0),
        decreases generics.len() - k,
    {
        k += 1;
    }
    if k < generics.len() {
        let mut one = generics.remove(k);
        let ghost had = one.tree();
        let mut list = more;
        one.bounds.append(&mut list);
        proof {
            assert(bounds_tree(one.bounds@) =~= had.bounds + bounds_tree(more@));
        }
        generics.insert(k, one);
        proof {
            assert(generics_tree(generics@) =~= with_bounds(start, name@, bounds_tree(more@)));
        }
    }
}

impl<'a> Parser<'a> {
    /// The rest of a `::` path behind its first name.
    pub fn parse_path_rest(&mut self, first: String) -> (r: Result<String, ParseError>)
        requires
            old(self).wf(),
        ensures
            match r {
                Ok(v) => kept(*old(self), *final(self), false) && path_rest(old(self).input(), old(self).at(), first@) == Out::Done(final(self).at(), v@),
                Err(e) => path_rest(old(self).input(), old(self).at(), first@) == Out::<Seq<char>>::Fail(e.failure()),
            },
    {
        proof {
            reveal_with_fuel(path_rest, 1);
        }
        let mut out = first;
        loop
            invariant
                kept(*old(self), *self, false),
                path_rest(self.input(), self.at(), out@) == path_rest(old(self).input(), old(self).at(), first@),
            decreases rem(self.input(), self.at()),
        {
            proof {
                reveal_with_fuel(path_rest, 1);
            }
            let ghost here = path_rest(self.input(), self.at(), out@);
            if self.cur() != T::ColonColon {
                return Ok(out);
            }
            self.bump()?;
            let name = self.expect_ident()?;
            out = cat3(out.as_str(), "::", name.as_str());
            proof {
                assert(here == path_rest(self.input(), self.at(), out@));
            }
        }
    }

    /// The rest of a `::` path behind its first names.
    pub fn parse_segments(&mut self, first: Vec<String>) -> (r: Result<Vec<String>, ParseError>)
        requires
            old(self).wf(),
        ensures
            match r {
                Ok(v) => kept(*old(self), *final(self), false) && segments(old(self).input(), old(self).at(), texts(first@)) == Out::Done(final(self).at(), texts(v@)),
                Err(e) => segments(old(self).input(), old(self).at(), texts(first@)) == Out::<Seq<Seq<char>>>::Fail(e.failure()),
            },
    {
        proof {
            reveal_with_fuel(segments, 1);
        }
        let mut out = first;
        loop
            invariant
                kept(*old(self), *self, false),
                segments(self.input(), self.at(), texts(out@)) == segments(old(self).input(), old(self).at(), texts(first@)),
            decreases rem(self.input(), self.at()),
        {
            proof {
                reveal_with_fuel(segments, 1);
            }
            let ghost here = segments(self.input(), self.at(), texts(out@));
            if self.cur() != T::ColonColon {
                return Ok(out);
            }
            self.bump()?;
            let name = self.expect_ident()?;
            let ghost had = texts(out@);
            let ghost model = name@;
            out.push(name);
            proof {
                assert(texts(out@) =~= had.push(model));
            }
            proof {
                assert(here == segments(self.input(), self.at(), texts(out@)));
            }
        }
    }

    /// Steps behind the bracket that closes `depth` open ones.
    pub fn skip_brackets(&mut self) -> (r: Result<(), ParseError>)
        requires
            old(self).wf(),
            old(self).input().kind(old(self).at().cur) == T::Lt,
        ensures
            match r {
                Ok(v) => kept(*old(self), *final(self), false) && skip_from(old(self).input(), old(self).at(), 0) == Out::Done(final(self).at(), v),
                Err(e) => skip_from(old(self).input(), old(self).at(), 0) == Out::<()>::Fail(e.failure()),
            },
    {
        proof {
            reveal_with_fuel(skip_from, 1);
        }
        let mut depth: usize = 0;
        loop
            invariant
                kept(*old(self), *self, false),
                old(self).at().cur >= 0,
                depth <= self.at().cur - old(self).at().cur,
                skip_from(self.input(), self.at(), depth as nat) == skip_from(old(self).input(), old(self).at(), 0),
            decreases rem(self.input(), self.at()),
        {
            proof {
                reveal_with_fuel(skip_from, 1);
            }
            let ghost here = skip_from(self.input(), self.at(), depth as nat);
            if self.cur() == T::Eof {
                return Err(self.err("unterminated `<...>`".to_string()));
            }
            if self.cur() == T::Gt && depth <= 1 {
                return self.bump();
            }
            let kind = self.cur();
            self.bump()?;
            proof {
                self.lexer.lemma_next();
            }
            if kind == T::Lt {
                depth += 1;
            } else if kind == T::Gt {
                depth -= 1;
            }
            proof {
                assert(here == skip_from(self.input(), self.at(), depth as nat));
            }
        }
    }

    /// Steps over an optional `<...>`.
    pub fn skip_generics(&mut self) -> (r: Result<(), ParseError>)
        requires
            old(self).wf(),
        ensures
            match r {
                Ok(v) => kept(*old(self), *final(self), false) && skip_generics(old(self).input(), old(self).at()) == Out::Done(final(self).at(), v),
                Err(e) => skip_generics(old(self).input(), old(self).at()) == Out::<()>::Fail(e.failure()),
            },
    {
        proof {
            reveal(skip_generics);
        }
        if self.cur() == T::Lt {
            self.skip_brackets()
        } else {
            Ok(())
        }
    }

    /// Bounds joined by `+`.
    pub fn parse_bounds(&mut self) -> (r: Result<Vec<TraitRef>, ParseError>)
        requires
            old(self).wf(),
        ensures
            match r {
                Ok(v) => kept(*old(self), *final(self), true) && bounds(old(self).input(), old(self).at(), Seq::empty()) == Out::Done(final(self).at(), bounds_tree(v@)),
                Err(e) => bounds(old(self).input(), old(self).at(), Seq::empty()) == Out::<Seq<TraitRefTree>>::Fail(e.failure()),
            },
    {
        proof {
            reveal_with_fuel(bounds, 1);
        }
        let mut out: Vec<TraitRef> = Vec::new();
        proof {
            assert(bounds_tree(out@) =~= Seq::empty());
        }
        loop
            invariant
                kept(*old(self), *self, false),
                bounds(self.input(), self.at(), bounds_tree(out@)) == bounds(old(self).input(), old(self).at(), Seq::empty()),
            decreases rem(self.input(), self.at()),
        {
            proof {
                reveal_with_fuel(bounds, 1);
            }
            let ghost here = bounds(self.input(), self.at(), bounds_tree(out@));
            let first = self.expect_ident()?;
            let path = self.parse_path_rest(first)?;
            self.skip_generics()?;
            let bound = self.trait_ref(path)?;
            let ghost had = bounds_tree(out@);
            let ghost model = bound.tree();
            out.push(bound);
            proof {
                assert(bounds_tree(out@) =~= had.push(model));
            }
            let more = self.accept(T::Plus)?;
            if !more {
                return Ok(out);
            }
            proof {
                assert(here == bounds(self.input(), self.at(), bounds_tree(out@)));
            }
        }
    }

    /// Bounds behind a colon, where there is one.
    pub fn parse_optional_bounds(&mut self) -> (r: Result<Vec<TraitRef>, ParseError>)
        requires
            old(self).wf(),
        ensures
            match r {
                Ok(v) => kept(*old(self), *final(self), false) && optional_bounds(old(self).input(), old(self).at()) == Out::Done(final(self).at(), bounds_tree(v@)),
                Err(e) => optional_bounds(old(self).input(), old(self).at()) == Out::<Seq<TraitRefTree>>::Fail(e.failure()),
            },
    {
        proof {
            reveal(optional_bounds);
        }
        let some = self.accept(T::Colon)?;
        if some {
            self.parse_bounds()
        } else {
            let out: Vec<TraitRef> = Vec::new();
            proof {
                assert(bounds_tree(out@) =~= Seq::empty());
            }
            Ok(out)
        }
    }

    /// Generic parameters up to the closing bracket.
    pub fn parse_generic_list(&mut self) -> (r: Result<Vec<GenericParam>, ParseError>)
        requires
            old(self).wf(),
        ensures
            match r {
                Ok(v) => kept(*old(self), *final(self), false) && generic_list(old(self).input(), old(self).at(), Seq::empty()) == Out::Done(final(self).at(), generics_tree(v@)),
                Err(e) => generic_list(old(self).input(), old(self).at(), Seq::empty()) == Out::<Seq<GenericParamTree>>::Fail(e.failure()),
            },
    {
        proof {
            reveal_with_fuel(generic_list, 1);
        }
        let mut out: Vec<GenericParam> = Vec::new();
        proof {
            assert(generics_tree(out@) =~= Seq::empty());
        }
        loop
            invariant
                kept(*old(self), *self, false),
                generic_list(self.input(), self.at(), generics_tree(out@)) == generic_list(old(self).input(), old(self).at(), Seq::empty()),
            decreases rem(self.input(), self.at()),
        {
            proof {
                reveal_with_fuel(generic_list, 1);
            }
            let ghost here = generic_list(self.input(), self.at(), generics_tree(out@));
            if self.cur() == T::Gt {
                return Ok(out);
            }
            let name = self.expect_ident()?;
            let bounds = self.parse_optional_bounds()?;
            let id = self.next_generic_id()?;
            let one = GenericParam {
                id, name, bounds
            };
            let ghost had = generics_tree(out@);
            let ghost model = one.tree();
            out.push(one);
            proof {
                assert(generics_tree(out@) =~= had.push(model));
            }
            let more = self.accept(T::Comma)?;
            if !more {
                return Ok(out);
            }
            proof {
                assert(here == generic_list(self.input(), self.at(), generics_tree(out@)));
            }
        }
    }

    /// An optional generic parameter list.
    pub fn parse_generics(&mut self) -> (r: Result<Vec<GenericParam>, ParseError>)
        requires
            old(self).wf(),
        ensures
            match r {
                Ok(v) => kept(*old(self), *final(self), false) && generics(old(self).input(), old(self).at()) == Out::Done(final(self).at(), generics_tree(v@)),
                Err(e) => generics(old(self).input(), old(self).at()) == Out::<Seq<GenericParamTree>>::Fail(e.failure()),
            },
    {
        proof {
            reveal(generics);
        }
        if self.cur() != T::Lt {
            let out: Vec<GenericParam> = Vec::new();
            proof {
                assert(generics_tree(out@) =~= Seq::empty());
            }
            return Ok(out);
        }
        self.bump()?;
        let out = self.parse_generic_list()?;
        self.expect(T::Gt)?;
        Ok(out)
    }

    /// Steps over the rest of a `::` path; whether there was one.
    pub fn skip_path_rest(&mut self) -> (r: Result<bool, ParseError>)
        requires
            old(self).wf(),
        ensures
            match r {
                Ok(v) => kept(*old(self), *final(self), false) && qualified_rest(old(self).input(), old(self).at(), false) == Out::Done(final(self).at(), v),
                Err(e) => qualified_rest(old(self).input(), old(self).at(), false) == Out::<bool>::Fail(e.failure()),
            },
    {
        proof {
            reveal_with_fuel(qualified_rest, 1);
        }
        let mut some = false;
        loop
            invariant
                kept(*old(self), *self, false),
                qualified_rest(self.input(), self.at(), some) == qualified_rest(old(self).input(), old(self).at(), false),
            decreases rem(self.input(), self.at()),
        {
            proof {
                reveal_with_fuel(qualified_rest, 1);
            }
            let ghost here = qualified_rest(self.input(), self.at(), some);
            if self.cur() != T::ColonColon {
                return Ok(some);
            }
            self.bump()?;
            let name = self.expect_ident()?;
            some = true;
            proof {
                assert(here == qualified_rest(self.input(), self.at(), some));
            }
        }
    }

    /// The predicates of a `where` clause.
    pub fn parse_where_list(&mut self, generics: Vec<GenericParam>) -> (r: Result<Vec<GenericParam>, ParseError>)
        requires
            old(self).wf(),
        ensures
            match r {
                Ok(v) => kept(*old(self), *final(self), false) && where_list(old(self).input(), old(self).at(), generics_tree(generics@)) == Out::Done(final(self).at(), generics_tree(v@)),
                Err(e) => where_list(old(self).input(), old(self).at(), generics_tree(generics@)) == Out::<Seq<GenericParamTree>>::Fail(e.failure()),
            },
    {
        proof {
            reveal_with_fuel(where_list, 1);
        }
        let mut out = generics;
        loop
            invariant
                kept(*old(self), *self, false),
                where_list(self.input(), self.at(), generics_tree(out@)) == where_list(old(self).input(), old(self).at(), generics_tree(generics@)),
            decreases rem(self.input(), self.at()),
        {
            proof {
                reveal_with_fuel(where_list, 1);
            }
            let ghost here = where_list(self.input(), self.at(), generics_tree(out@));
            if self.cur() == T::LBrace || self.cur() == T::Semi || self.cur() == T::Eof {
                return Ok(out);
            }
            let name = self.expect_ident()?;
            let qualified = self.skip_path_rest()?;
            let angled = self.cur() == T::Lt;
            self.skip_generics()?;
            let bounds = self.parse_optional_bounds()?;
            if !qualified && !angled {
                add_bounds(&mut out, name.as_str(), bounds);
            }
            let more = self.accept(T::Comma)?;
            if !more {
                return Ok(out);
            }
            proof {
                assert(here == where_list(self.input(), self.at(), generics_tree(out@)));
            }
        }
    }

    /// An optional `where` clause; its bounds join those of the parameters.
    pub fn parse_where(&mut self, generics: Vec<GenericParam>) -> (r: Result<Vec<GenericParam>, ParseError>)
        requires
            old(self).wf(),
        ensures
            match r {
                Ok(v) => kept(*old(self), *final(self), false) && where_clause(old(self).input(), old(self).at(), generics_tree(generics@)) == Out::Done(final(self).at(), generics_tree(v@)),
                Err(e) => where_clause(old(self).input(), old(self).at(), generics_tree(generics@)) == Out::<Seq<GenericParamTree>>::Fail(e.failure()),
            },
    {
        proof {
            reveal(where_clause);
        }
        if self.cur() != T::Ident {
            return Ok(generics);
        }
        let text = self.text();
        if !same_text(text.as_str(), "where") {
            return Ok(generics);
        }
        self.bump()?;
        self.parse_where_list(generics)
    }
}

} // verus!
