//! Types.

use vstd::prelude::*;

use crate::ast::Type;
use crate::parser::grammar::{
    function_type, group_type, optional_type, p_type, path_type, rem, type_inner, types, Out,
};
use crate::parser::state::{kept, ParseError, Parser};
use crate::token::RuaTokenKind as T;
use crate::tree::{optional_type_tree, types_tree, TypeTree};

verus! {

impl<'a> Parser<'a> {
    /// Types up to a closing token.
    pub fn parse_type_list(&mut self, close: T) -> (r: Result<Vec<Type>, ParseError>)
        requires
            old(self).wf(),
            close != T::Eof,
        ensures
            match r {
                Ok(v) => kept(*old(self), *final(self), false) && types(
                    old(self).input(),
                    old(self).at(),
                    old(self).nesting as nat,
                    close,
                    Seq::empty(),
                ) == Out::Done(final(self).at(), types_tree(v@)),
                Err(e) => types(
                    old(self).input(),
                    old(self).at(),
                    old(self).nesting as nat,
                    close,
                    Seq::empty(),
                ) == Out::<Seq<TypeTree>>::Fail(e.failure()),
            },
        decreases
                old(self).max_nesting - old(self).nesting,
                3int,
                rem(old(self).input(), old(self).at()),
                0int,
    {
        let first: Vec<Type> = Vec::new();
        proof {
            assert(types_tree(first@) =~= Seq::empty());
        }
        self.parse_types(close, first)
    }

    /// A type.
    pub fn parse_type(&mut self) -> (r: Result<Type, ParseError>)
        requires
            old(self).wf(),
        ensures
            match r {
                Ok(v) => kept(*old(self), *final(self), true) && p_type(old(self).input(), old(self).at(), old(self).nesting as nat) == Out::Done(final(self).at(), v.tree()),
                Err(e) => p_type(old(self).input(), old(self).at(), old(self).nesting as nat) == Out::<TypeTree>::Fail(e.failure()),
            },
        decreases
            old(self).max_nesting - old(self).nesting,
            0int,
            rem(old(self).input(), old(self).at()),
            0int,
    {
        if self.nesting >= self.max_nesting {
            return Err(self.nesting_error());
        }
        self.nesting = self.nesting + 1;
        match self.parse_type_inner() {
            Ok(value) => {
                self.nesting = self.nesting - 1;
                Ok(value)
            },
            Err(error) => Err(error),
        }
    }

    /// Types up to a closing token.
    pub fn parse_types(&mut self, close: T, first: Vec<Type>) -> (r: Result<Vec<Type>, ParseError>)
        requires
            old(self).wf(),
            close != T::Eof,
        ensures
            match r {
                Ok(v) => kept(*old(self), *final(self), false) && types(old(self).input(), old(self).at(), old(self).nesting as nat, close, types_tree(first@)) == Out::Done(final(self).at(), types_tree(v@)),
                Err(e) => types(old(self).input(), old(self).at(), old(self).nesting as nat, close, types_tree(first@)) == Out::<Seq<TypeTree>>::Fail(e.failure()),
            },
        decreases
            old(self).max_nesting - old(self).nesting,
            2int,
            rem(old(self).input(), old(self).at()),
            0int,
    {
        let mut out = first;
        loop
            invariant
                kept(*old(self), *self, false),
                types(self.input(), self.at(), self.nesting as nat, close, types_tree(out@)) == types(old(self).input(), old(self).at(), old(self).nesting as nat, close, types_tree(first@)),
            decreases rem(self.input(), self.at()),
        {
            let ghost here = types(self.input(), self.at(), self.nesting as nat, close, types_tree(out@));
            if self.cur() == close {
                return Ok(out);
            }
            let ty = self.parse_type()?;
            let ghost had = types_tree(out@);
            let ghost model = ty.tree();
            out.push(ty);
            proof {
                assert(types_tree(out@) =~= had.push(model));
            }
            let more = self.accept(T::Comma)?;
            if !more {
                return Ok(out);
            }
            proof {
                assert(here == types(self.input(), self.at(), self.nesting as nat, close, types_tree(out@)));
            }
        }
    }

    /// A function type behind `fn`.
    pub fn parse_function_type(&mut self) -> (r: Result<Type, ParseError>)
        requires
            old(self).wf(),
        ensures
            match r {
                Ok(v) => kept(*old(self), *final(self), true) && function_type(old(self).input(), old(self).at(), old(self).nesting as nat) == Out::Done(final(self).at(), v.tree()),
                Err(e) => function_type(old(self).input(), old(self).at(), old(self).nesting as nat) == Out::<TypeTree>::Fail(e.failure()),
            },
        decreases
            old(self).max_nesting - old(self).nesting,
            4int,
            rem(old(self).input(), old(self).at()),
            0int,
    {
        self.expect(T::LParen)?;
        let params = self.parse_type_list(T::RParen)?;
        self.expect(T::RParen)?;
        let some = self.accept(T::Arrow)?;
        if some {
            let ret = self.parse_type()?;
            Ok(Type::Function {
                params, ret: Box::new(ret)
            })
        } else {
            proof {
                assert(Type::Unit.tree() == TypeTree::Unit);
            }
            Ok(Type::Function {
                params, ret: Box::new(Type::Unit)
            })
        }
    }

    /// A unit, a grouped type or a tuple type behind `(`.
    pub fn parse_group_type(&mut self) -> (r: Result<Type, ParseError>)
        requires
            old(self).wf(),
        ensures
            match r {
                Ok(v) => kept(*old(self), *final(self), true) && group_type(old(self).input(), old(self).at(), old(self).nesting as nat) == Out::Done(final(self).at(), v.tree()),
                Err(e) => group_type(old(self).input(), old(self).at(), old(self).nesting as nat) == Out::<TypeTree>::Fail(e.failure()),
            },
        decreases
            old(self).max_nesting - old(self).nesting,
            4int,
            rem(old(self).input(), old(self).at()),
            0int,
    {
        let unit = self.accept(T::RParen)?;
        if unit {
            return Ok(Type::Unit);
        }
        let first = self.parse_type()?;
        let more = self.accept(T::Comma)?;
        if !more {
            self.expect(T::RParen)?;
            return Ok(first);
        }
        let ghost one = first.tree();
        let mut list: Vec<Type> = Vec::new();
        list.push(first);
        proof {
            assert(types_tree(list@) =~= seq![one]);
        }
        let list = self.parse_types(T::RParen, list)?;
        self.expect(T::RParen)?;
        Ok(Type::Tuple(list))
    }

    /// A named type.
    pub fn parse_path_type(&mut self) -> (r: Result<Type, ParseError>)
        requires
            old(self).wf(),
        ensures
            match r {
                Ok(v) => kept(*old(self), *final(self), true) && path_type(old(self).input(), old(self).at(), old(self).nesting as nat) == Out::Done(final(self).at(), v.tree()),
                Err(e) => path_type(old(self).input(), old(self).at(), old(self).nesting as nat) == Out::<TypeTree>::Fail(e.failure()),
            },
        decreases
            old(self).max_nesting - old(self).nesting,
            4int,
            rem(old(self).input(), old(self).at()),
            0int,
    {
        let first = self.expect_ident()?;
        let name = self.parse_path_rest(first)?;
        let angled = self.accept(T::Lt)?;
        if angled {
            let args = self.parse_type_list(T::Gt)?;
            self.expect(T::Gt)?;
            let id = self.next_type_id()?;
            return Ok(Type::Path {
                id, name, args
            });
        }
        let id = self.next_type_id()?;
        let args: Vec<Type> = Vec::new();
        proof {
            assert(types_tree(args@) =~= Seq::empty());
        }
        Ok(Type::Path {
            id, name, args
        })
    }

    /// A type, one level further in.
    pub fn parse_type_inner(&mut self) -> (r: Result<Type, ParseError>)
        requires
            old(self).wf(),
        ensures
            match r {
                Ok(v) => kept(*old(self), *final(self), true) && type_inner(old(self).input(), old(self).at(), old(self).nesting as nat) == Out::Done(final(self).at(), v.tree()),
                Err(e) => type_inner(old(self).input(), old(self).at(), old(self).nesting as nat) == Out::<TypeTree>::Fail(e.failure()),
            },
        decreases
            old(self).max_nesting - old(self).nesting,
            9int,
            rem(old(self).input(), old(self).at()),
            0int,
    {
        if self.cur() == T::KwFn {
            self.bump()?;
            return self.parse_function_type();
        }
        if self.cur() == T::Amp {
            self.bump()?;
            let mutable = self.accept(T::KwMut)?;
            let dynamic = self.accept(T::KwDyn)?;
            let inner = self.parse_type()?;
            return Ok(Type::Ref {
                mutable, inner: Box::new(inner)
            });
        }
        if self.cur() == T::LParen {
            self.bump()?;
            return self.parse_group_type();
        }
        self.parse_path_type()
    }

    /// A type behind a mark, where there is one.
    pub fn parse_optional_type(&mut self, mark: T) -> (r: Result<Option<Type>, ParseError>)
        requires
            old(self).wf(),
            mark != T::Eof,
        ensures
            match r {
                Ok(v) => kept(*old(self), *final(self), false) && optional_type(old(self).input(), old(self).at(), old(self).nesting as nat, mark) == Out::Done(final(self).at(), optional_type_tree(v)),
                Err(e) => optional_type(old(self).input(), old(self).at(), old(self).nesting as nat, mark) == Out::<Option<TypeTree>>::Fail(e.failure()),
            },
        decreases
            old(self).max_nesting - old(self).nesting,
            2int,
            rem(old(self).input(), old(self).at()),
            0int,
    {
        let some = self.accept(mark)?;
        if some {
            let ty = self.parse_type()?;
            Ok(Some(ty))
        } else {
            Ok(None)
        }
    }
}

} // verus!
