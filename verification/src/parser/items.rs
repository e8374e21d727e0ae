//! Items and chunks.

use vstd::prelude::*;

use crate::ast::{
    AnnotationDecl, Attribute, Block, ChunkEntry, EnumDecl, ExternBlock, ExternFn, Field, FnDecl, GenericParam,
    ImplDecl, Item, Param, Stmt, StructDecl, TraitDecl, TraitMethod, Type, UseDecl, UseImport,
    Variant, VariantKind,
};
use crate::parser::pieces::{empty_block, push_stmt};
use crate::parser::grammar::{
    annotation_decl, chunk, chunk_stmt, empty_block_tree, enum_decl, field_list, fields, function, host_block,
    host_function, host_functions, host_params, impl_decl, impl_names, import_group, import_rest,
    item, methods, optional_alias, param_list, receiver, rem, signature, starts_item, struct_decl,
    trait_decl, trait_method, trait_methods, use_decl, variant_kind, variants, with_chunk_stmt,
    with_item, ChunkTree, Out, SigTree,
};
use crate::parser::state::{ends_statement, kept, unquote, ParseError, Parser};
use crate::text::{cat3, cat5, copy_texts, texts};
use crate::token::{RuaTokenKind as T, SourceRange};
use crate::tree::{
    attributes_tree, extern_fns_tree, fields_tree, functions_tree, generics_tree, imports_tree,
    items_tree, optional_text, optional_type_tree, params_tree, trait_methods_tree, variants_tree,
    AnnotationDeclTree, AttributeTree, EnumDeclTree, ExternBlockTree, ExternFnTree, FieldTree, FnDeclTree,
    GenericParamTree, ImplDeclTree, ItemTree, ParamTree, StmtTree, StructDeclTree, TraitDeclTree,
    TraitMethodTree, UseDeclTree, UseImportTree, VariantKindTree, VariantTree,
};

verus! {

/// A function header.
#[derive(Debug)]
pub struct FnSig {
    pub name: String,
    pub name_span: SourceRange,
    pub generics: Vec<GenericParam>,
    pub has_self: bool,
    pub receiver_mutable: bool,
    pub params: Vec<Param>,
    pub ret: Option<Type>,
}

impl FnSig {
    /// The mathematical form.
    pub open spec fn tree(self) -> SigTree {
        SigTree {
            name: self.name@,
            name_span: self.name_span,
            generics: generics_tree(self.generics@),
            has_self: self.has_self,
            receiver_mutable: self.receiver_mutable,
            params: params_tree(self.params@),
            ret: optional_type_tree(self.ret),
        }
    }
}

/// The contents of a chunk.
#[derive(Debug)]
pub struct Chunk {
    pub items: Vec<Item>,
    pub block: Block,
    pub source_order: Vec<ChunkEntry>,
}

impl Chunk {
    /// The mathematical form.
    pub open spec fn tree(self) -> ChunkTree {
        ChunkTree {
            items: items_tree(self.items@),
            block: self.block.tree(),
            source_order: self.source_order@,
        }
    }
}

/// A chunk without contents.
pub open spec fn empty_chunk_tree() -> ChunkTree {
    ChunkTree { items: Seq::empty(), block: empty_block_tree(), source_order: Seq::empty() }
}

fn empty_chunk() -> (r: Chunk)
    ensures
        r.tree() == empty_chunk_tree(),
{
    let r = Chunk { items: Vec::new(), block: empty_block(), source_order: Vec::new() };
    proof {
        assert(items_tree(r.items@) =~= Seq::empty());
        assert(r.source_order@ =~= Seq::empty());
    }
    r
}

fn push_item(chunk: &mut Chunk, item: Item)
    ensures
        final(chunk).tree() == with_item(old(chunk).tree(), item.tree()),
{
    let ghost had = items_tree(chunk.items@);
    let ghost one = item.tree();
    chunk.source_order.push(ChunkEntry::Item(chunk.items.len()));
    chunk.items.push(item);
    proof {
        assert(items_tree(chunk.items@) =~= had.push(one));
    }
}

fn push_chunk_stmt(chunk: &mut Chunk, statement: Stmt, blank: bool)
    ensures
        final(chunk).tree() == with_chunk_stmt(old(chunk).tree(), statement.tree(), blank),
{
    chunk.source_order.push(ChunkEntry::Statement(chunk.block.stmts.len()));
    push_stmt(&mut chunk.block, statement, blank);
}

fn is_item_start(kind: T) -> (r: bool)
    ensures
        r == starts_item(kind),
{
    match kind {
        T::KwPub | T::KwFn | T::KwStruct | T::KwEnum | T::KwImpl | T::KwTrait | T::KwExtern
        | T::KwUse | T::Hash => true,
        _ => false,
    }
}

fn no_attributes() -> (r: Vec<Attribute>)
    ensures
        attributes_tree(r@) == Seq::<AttributeTree>::empty(),
{
    let r: Vec<Attribute> = Vec::new();
    proof {
        assert(attributes_tree(r@) =~= Seq::empty());
    }
    r
}

fn no_generics() -> (r: Vec<GenericParam>)
    ensures
        generics_tree(r@) == Seq::<GenericParamTree>::empty(),
{
    let r: Vec<GenericParam> = Vec::new();
    proof {
        assert(generics_tree(r@) =~= Seq::empty());
    }
    r
}

impl<'a> Parser<'a> {
    /// Parameters up to the closing parenthesis.
    pub fn parse_params(&mut self) -> (r: Result<Vec<Param>, ParseError>)
        requires
            old(self).wf(),
        ensures
            match r {
                Ok(v) => kept(*old(self), *final(self), false) && param_list(
                    old(self).input(),
                    old(self).at(),
                    old(self).nesting as nat,
                    old(self).no_struct,
                    Seq::empty(),
                ) == Out::Done(final(self).at(), params_tree(v@)),
                Err(e) => param_list(
                    old(self).input(),
                    old(self).at(),
                    old(self).nesting as nat,
                    old(self).no_struct,
                    Seq::empty(),
                ) == Out::<Seq<ParamTree>>::Fail(e.failure()),
            },
    {
        proof {
            reveal_with_fuel(param_list, 1);
        }
        let mut out: Vec<Param> = Vec::new();
        proof {
            assert(params_tree(out@) =~= Seq::empty());
        }
        loop
            invariant
                kept(*old(self), *self, false),
                param_list(self.input(), self.at(), self.nesting as nat, self.no_struct, params_tree(out@)) == param_list(
                    old(self).input(),
                    old(self).at(),
                    old(self).nesting as nat,
                    old(self).no_struct,
                    Seq::empty(),
                ),
            decreases rem(self.input(), self.at()),
        {
            proof {
                reveal_with_fuel(param_list, 1);
            }
            let ghost here = param_list(self.input(), self.at(), self.nesting as nat, self.no_struct, params_tree(out@));
            if self.cur() == T::RParen {
                return Ok(out);
            }
            let name_span = self.range();
            let name = self.expect_ident()?;
            self.expect(T::Colon)?;
            let ty = self.parse_type()?;
            let one = Param {
                name, name_span, ty
            };
            let ghost had = params_tree(out@);
            let ghost model = one.tree();
            out.push(one);
            proof {
                assert(params_tree(out@) =~= had.push(model));
            }
            let more = self.accept(T::Comma)?;
            if !more {
                return Ok(out);
            }
            proof {
                assert(here == param_list(self.input(), self.at(), self.nesting as nat, self.no_struct, params_tree(out@)));
            }
        }
    }

    /// An optional receiver: whether there is one, and whether it is `&mut self`.
    pub fn parse_receiver(&mut self) -> (r: Result<(bool, bool), ParseError>)
        requires
            old(self).wf(),
        ensures
            match r {
                Ok(v) => kept(*old(self), *final(self), false) && receiver(
                    old(self).input(),
                    old(self).at(),
                    old(self).nesting as nat,
                    old(self).no_struct,
                ) == Out::Done(final(self).at(), v),
                Err(e) => receiver(
                    old(self).input(),
                    old(self).at(),
                    old(self).nesting as nat,
                    old(self).no_struct,
                ) == Out::<(bool, bool)>::Fail(e.failure()),
            },
    {
        proof {
            reveal(receiver);
        }
        if self.cur() == T::Amp {
            self.bump()?;
            let mutable = self.accept(T::KwMut)?;
            self.expect(T::KwSelf)?;
            let comma = self.accept(T::Comma)?;
            return Ok((true, mutable));
        }
        if self.cur() == T::KwSelf {
            self.bump()?;
            let comma = self.accept(T::Comma)?;
            return Ok((true, false));
        }
        Ok((false, false))
    }

    /// A function header.
    pub fn parse_fn_sig(&mut self) -> (r: Result<FnSig, ParseError>)
        requires
            old(self).wf(),
        ensures
            match r {
                Ok(v) => kept(*old(self), *final(self), true) && signature(
                    old(self).input(),
                    old(self).at(),
                    old(self).nesting as nat,
                    old(self).no_struct,
                ) == Out::Done(final(self).at(), v.tree()),
                Err(e) => signature(
                    old(self).input(),
                    old(self).at(),
                    old(self).nesting as nat,
                    old(self).no_struct,
                ) == Out::<SigTree>::Fail(e.failure()),
            },
    {
        proof {
            reveal(signature);
        }
        self.expect(T::KwFn)?;
        let name_span = self.range();
        let name = self.expect_ident()?;
        let list = self.parse_generics()?;
        self.expect(T::LParen)?;
        let own = self.parse_receiver()?;
        let params = self.parse_params()?;
        self.expect(T::RParen)?;
        let ret = self.parse_optional_type(T::Arrow)?;
        let generics = self.parse_where(list)?;
        Ok(FnSig {
            name,
            name_span,
            generics,
            has_self: own.0,
            receiver_mutable: own.1,
            params,
            ret,
        })
    }

    /// A function.
    pub fn parse_fn(&mut self) -> (r: Result<FnDecl, ParseError>)
        requires
            old(self).wf(),
        ensures
            match r {
                Ok(v) => kept(*old(self), *final(self), true) && function(
                    old(self).input(),
                    old(self).at(),
                    old(self).nesting as nat,
                    old(self).no_struct,
                ) == Out::Done(final(self).at(), v.tree()),
                Err(e) => function(
                    old(self).input(),
                    old(self).at(),
                    old(self).nesting as nat,
                    old(self).no_struct,
                ) == Out::<FnDeclTree>::Fail(e.failure()),
            },
    {
        proof {
            reveal(function);
        }
        let sig = self.parse_fn_sig()?;
        let body = self.parse_block()?;
        Ok(FnDecl {
            name: sig.name,
            attributes: no_attributes(),
            documentation: None,
            name_span: sig.name_span,
            generics: sig.generics,
            is_pub: false,
            has_self: sig.has_self,
            receiver_mutable: sig.receiver_mutable,
            params: sig.params,
            ret: sig.ret,
            body,
        })
    }

    /// Parameters of a host function, and whether `...` ends them.
    pub fn parse_host_params(&mut self) -> (r: Result<(Vec<Param>, bool), ParseError>)
        requires
            old(self).wf(),
        ensures
            match r {
                Ok(v) => kept(*old(self), *final(self), false) && host_params(
                    old(self).input(),
                    old(self).at(),
                    old(self).nesting as nat,
                    old(self).no_struct,
                    Seq::empty(),
                ) == Out::Done(final(self).at(), (params_tree(v.0@), v.1)),
                Err(e) => host_params(
                    old(self).input(),
                    old(self).at(),
                    old(self).nesting as nat,
                    old(self).no_struct,
                    Seq::empty(),
                ) == Out::<(Seq<ParamTree>, bool)>::Fail(e.failure()),
            },
    {
        proof {
            reveal_with_fuel(host_params, 1);
        }
        let mut out: Vec<Param> = Vec::new();
        proof {
            assert(params_tree(out@) =~= Seq::empty());
        }
        loop
            invariant
                kept(*old(self), *self, false),
                host_params(self.input(), self.at(), self.nesting as nat, self.no_struct, params_tree(out@)) == host_params(
                    old(self).input(),
                    old(self).at(),
                    old(self).nesting as nat,
                    old(self).no_struct,
                    Seq::empty(),
                ),
            decreases rem(self.input(), self.at()),
        {
            proof {
                reveal_with_fuel(host_params, 1);
            }
            let ghost here = host_params(self.input(), self.at(), self.nesting as nat, self.no_struct, params_tree(out@));
            if self.cur() == T::RParen {
                return Ok((out, false));
            }
            if self.cur() == T::DotDot {
                self.bump()?;
                let dot = self.accept(T::Dot)?;
                return Ok((out, true));
            }
            let name_span = self.range();
            let name = self.expect_ident()?;
            self.expect(T::Colon)?;
            let ty = self.parse_type()?;
            let one = Param {
                name, name_span, ty
            };
            let ghost had = params_tree(out@);
            let ghost model = one.tree();
            out.push(one);
            proof {
                assert(params_tree(out@) =~= had.push(model));
            }
            let more = self.accept(T::Comma)?;
            if !more {
                return Ok((out, false));
            }
            proof {
                assert(here == host_params(self.input(), self.at(), self.nesting as nat, self.no_struct, params_tree(out@)));
            }
        }
    }

    /// A host function.
    pub fn parse_host_function(&mut self) -> (r: Result<ExternFn, ParseError>)
        requires
            old(self).wf(),
        ensures
            match r {
                Ok(v) => kept(*old(self), *final(self), true) && host_function(
                    old(self).input(),
                    old(self).at(),
                    old(self).nesting as nat,
                    old(self).no_struct,
                ) == Out::Done(final(self).at(), v.tree()),
                Err(e) => host_function(
                    old(self).input(),
                    old(self).at(),
                    old(self).nesting as nat,
                    old(self).no_struct,
                ) == Out::<ExternFnTree>::Fail(e.failure()),
            },
    {
        proof {
            reveal(host_function);
        }
        let documentation = self.leading_documentation();
        let marks = self.parse_attributes()?;
        let public = self.accept(T::KwPub)?;
        self.expect(T::KwFn)?;
        let name_span = self.range();
        let name = self.expect_ident()?;
        self.skip_generics()?;
        self.expect(T::LParen)?;
        let list = self.parse_host_params()?;
        self.expect(T::RParen)?;
        let ret = self.parse_optional_type(T::Arrow)?;
        self.expect(T::Semi)?;
        Ok(ExternFn {
            name,
            attributes: marks,
            name_span,
            documentation,
            generics: no_generics(),
            params: list.0,
            ret,
            variadic: list.1,
        })
    }

    /// Host functions up to the closing brace.
    pub fn parse_host_functions(&mut self) -> (r: Result<Vec<ExternFn>, ParseError>)
        requires
            old(self).wf(),
        ensures
            match r {
                Ok(v) => kept(*old(self), *final(self), false) && host_functions(
                    old(self).input(),
                    old(self).at(),
                    old(self).nesting as nat,
                    old(self).no_struct,
                    Seq::empty(),
                ) == Out::Done(final(self).at(), extern_fns_tree(v@)),
                Err(e) => host_functions(
                    old(self).input(),
                    old(self).at(),
                    old(self).nesting as nat,
                    old(self).no_struct,
                    Seq::empty(),
                ) == Out::<Seq<ExternFnTree>>::Fail(e.failure()),
            },
    {
        proof {
            reveal_with_fuel(host_functions, 1);
        }
        let mut out: Vec<ExternFn> = Vec::new();
        proof {
            assert(extern_fns_tree(out@) =~= Seq::empty());
        }
        loop
            invariant
                kept(*old(self), *self, false),
                host_functions(self.input(), self.at(), self.nesting as nat, self.no_struct, extern_fns_tree(out@)) == host_functions(
                    old(self).input(),
                    old(self).at(),
                    old(self).nesting as nat,
                    old(self).no_struct,
                    Seq::empty(),
                ),
            decreases rem(self.input(), self.at()),
        {
            proof {
                reveal_with_fuel(host_functions, 1);
            }
            let ghost here = host_functions(self.input(), self.at(), self.nesting as nat, self.no_struct, extern_fns_tree(out@));
            if self.cur() == T::RBrace || self.cur() == T::Eof {
                return Ok(out);
            }
            let one = self.parse_host_function()?;
            let ghost had = extern_fns_tree(out@);
            let ghost model = one.tree();
            out.push(one);
            proof {
                assert(extern_fns_tree(out@) =~= had.push(model));
            }
            proof {
                assert(here == host_functions(self.input(), self.at(), self.nesting as nat, self.no_struct, extern_fns_tree(out@)));
            }
        }
    }

    /// A block of host functions.
    pub fn parse_host_block(&mut self) -> (r: Result<ExternBlock, ParseError>)
        requires
            old(self).wf(),
        ensures
            match r {
                Ok(v) => kept(*old(self), *final(self), true) && host_block(
                    old(self).input(),
                    old(self).at(),
                    old(self).nesting as nat,
                    old(self).no_struct,
                ) == Out::Done(final(self).at(), v.tree()),
                Err(e) => host_block(
                    old(self).input(),
                    old(self).at(),
                    old(self).nesting as nat,
                    old(self).no_struct,
                ) == Out::<ExternBlockTree>::Fail(e.failure()),
            },
    {
        proof {
            reveal(host_block);
        }
        self.expect(T::KwExtern)?;
        let abi = if self.cur() == T::Str {
            let text = self.text();
            self.bump()?;
            unquote(text.as_str())
        } else {
            "C".to_string()
        };
        self.expect(T::LBrace)?;
        let fns = self.parse_host_functions()?;
        self.expect(T::RBrace)?;
        Ok(ExternBlock {
            attributes: no_attributes(), abi, documentation: None, fns
        })
    }

    /// A method of a trait.
    pub fn parse_trait_method(&mut self) -> (r: Result<TraitMethod, ParseError>)
        requires
            old(self).wf(),
        ensures
            match r {
                Ok(v) => kept(*old(self), *final(self), true) && trait_method(
                    old(self).input(),
                    old(self).at(),
                    old(self).nesting as nat,
                    old(self).no_struct,
                ) == Out::Done(final(self).at(), v.tree()),
                Err(e) => trait_method(
                    old(self).input(),
                    old(self).at(),
                    old(self).nesting as nat,
                    old(self).no_struct,
                ) == Out::<TraitMethodTree>::Fail(e.failure()),
            },
    {
        proof {
            reveal(trait_method);
        }
        let documentation = self.leading_documentation();
        let marks = self.parse_attributes()?;
        let sig = self.parse_fn_sig()?;
        let default = if self.cur() == T::LBrace {
            let block = self.parse_block()?;
            Some(block)
        } else {
            self.expect(T::Semi)?;
            None
        };
        Ok(TraitMethod {
            name: sig.name,
            attributes: marks,
            documentation,
            name_span: sig.name_span,
            generics: sig.generics,
            has_self: sig.has_self,
            receiver_mutable: sig.receiver_mutable,
            params: sig.params,
            ret: sig.ret,
            default,
        })
    }

    /// Methods of a trait up to the closing brace.
    pub fn parse_trait_methods(&mut self) -> (r: Result<Vec<TraitMethod>, ParseError>)
        requires
            old(self).wf(),
        ensures
            match r {
                Ok(v) => kept(*old(self), *final(self), false) && trait_methods(
                    old(self).input(),
                    old(self).at(),
                    old(self).nesting as nat,
                    old(self).no_struct,
                    Seq::empty(),
                ) == Out::Done(final(self).at(), trait_methods_tree(v@)),
                Err(e) => trait_methods(
                    old(self).input(),
                    old(self).at(),
                    old(self).nesting as nat,
                    old(self).no_struct,
                    Seq::empty(),
                ) == Out::<Seq<TraitMethodTree>>::Fail(e.failure()),
            },
    {
        proof {
            reveal_with_fuel(trait_methods, 1);
        }
        let mut out: Vec<TraitMethod> = Vec::new();
        proof {
            assert(trait_methods_tree(out@) =~= Seq::empty());
        }
        loop
            invariant
                kept(*old(self), *self, false),
                trait_methods(self.input(), self.at(), self.nesting as nat, self.no_struct, trait_methods_tree(out@)) == trait_methods(
                    old(self).input(),
                    old(self).at(),
                    old(self).nesting as nat,
                    old(self).no_struct,
                    Seq::empty(),
                ),
            decreases rem(self.input(), self.at()),
        {
            proof {
                reveal_with_fuel(trait_methods, 1);
            }
            let ghost here = trait_methods(self.input(), self.at(), self.nesting as nat, self.no_struct, trait_methods_tree(out@));
            if self.cur() == T::RBrace || self.cur() == T::Eof {
                return Ok(out);
            }
            let one = self.parse_trait_method()?;
            let ghost had = trait_methods_tree(out@);
            let ghost model = one.tree();
            out.push(one);
            proof {
                assert(trait_methods_tree(out@) =~= had.push(model));
            }
            proof {
                assert(here == trait_methods(self.input(), self.at(), self.nesting as nat, self.no_struct, trait_methods_tree(out@)));
            }
        }
    }

    /// A trait.
    pub fn parse_trait(&mut self) -> (r: Result<TraitDecl, ParseError>)
        requires
            old(self).wf(),
        ensures
            match r {
                Ok(v) => kept(*old(self), *final(self), true) && trait_decl(
                    old(self).input(),
                    old(self).at(),
                    old(self).nesting as nat,
                    old(self).no_struct,
                ) == Out::Done(final(self).at(), v.tree()),
                Err(e) => trait_decl(
                    old(self).input(),
                    old(self).at(),
                    old(self).nesting as nat,
                    old(self).no_struct,
                ) == Out::<TraitDeclTree>::Fail(e.failure()),
            },
    {
        proof {
            reveal(trait_decl);
        }
        self.expect(T::KwTrait)?;
        let name = self.expect_ident()?;
        let list = self.parse_generics()?;
        let generics = self.parse_where(list)?;
        self.expect(T::LBrace)?;
        let methods = self.parse_trait_methods()?;
        self.expect(T::RBrace)?;
        Ok(TraitDecl {
            name,
            attributes: no_attributes(),
            documentation: None,
            generics,
            methods,
            is_pub: false,
        })
    }

    /// Fields up to the closing brace.
    pub fn parse_fields(&mut self) -> (r: Result<Vec<Field>, ParseError>)
        requires
            old(self).wf(),
        ensures
            match r {
                Ok(v) => kept(*old(self), *final(self), false) && fields(
                    old(self).input(),
                    old(self).at(),
                    old(self).nesting as nat,
                    old(self).no_struct,
                    Seq::empty(),
                ) == Out::Done(final(self).at(), fields_tree(v@)),
                Err(e) => fields(
                    old(self).input(),
                    old(self).at(),
                    old(self).nesting as nat,
                    old(self).no_struct,
                    Seq::empty(),
                ) == Out::<Seq<FieldTree>>::Fail(e.failure()),
            },
    {
        proof {
            reveal_with_fuel(fields, 1);
        }
        let mut out: Vec<Field> = Vec::new();
        proof {
            assert(fields_tree(out@) =~= Seq::empty());
        }
        loop
            invariant
                kept(*old(self), *self, false),
                fields(self.input(), self.at(), self.nesting as nat, self.no_struct, fields_tree(out@)) == fields(
                    old(self).input(),
                    old(self).at(),
                    old(self).nesting as nat,
                    old(self).no_struct,
                    Seq::empty(),
                ),
            decreases rem(self.input(), self.at()),
        {
            proof {
                reveal_with_fuel(fields, 1);
            }
            let ghost here = fields(self.input(), self.at(), self.nesting as nat, self.no_struct, fields_tree(out@));
            if self.cur() == T::RBrace {
                return Ok(out);
            }
            let documentation = self.leading_documentation();
            let marks = self.parse_attributes()?;
            let public = self.accept(T::KwPub)?;
            let name_span = self.range();
            let name = self.expect_ident()?;
            self.expect(T::Colon)?;
            let ty = self.parse_type()?;
            let one = Field {
                name, attributes: marks, documentation, ty, name_span
            };
            let ghost had = fields_tree(out@);
            let ghost model = one.tree();
            out.push(one);
            proof {
                assert(fields_tree(out@) =~= had.push(model));
            }
            let more = self.accept(T::Comma)?;
            if !more {
                return Ok(out);
            }
            proof {
                assert(here == fields(self.input(), self.at(), self.nesting as nat, self.no_struct, fields_tree(out@)));
            }
        }
    }

    /// Fields in braces.
    pub fn parse_field_list(&mut self) -> (r: Result<Vec<Field>, ParseError>)
        requires
            old(self).wf(),
        ensures
            match r {
                Ok(v) => kept(*old(self), *final(self), true) && field_list(
                    old(self).input(),
                    old(self).at(),
                    old(self).nesting as nat,
                    old(self).no_struct,
                ) == Out::Done(final(self).at(), fields_tree(v@)),
                Err(e) => field_list(
                    old(self).input(),
                    old(self).at(),
                    old(self).nesting as nat,
                    old(self).no_struct,
                ) == Out::<Seq<FieldTree>>::Fail(e.failure()),
            },
    {
        proof {
            reveal(field_list);
        }
        self.expect(T::LBrace)?;
        let list = self.parse_fields()?;
        self.expect(T::RBrace)?;
        Ok(list)
    }

    /// A struct.
    pub fn parse_struct(&mut self) -> (r: Result<StructDecl, ParseError>)
        requires
            old(self).wf(),
        ensures
            match r {
                Ok(v) => kept(*old(self), *final(self), true) && struct_decl(
                    old(self).input(),
                    old(self).at(),
                    old(self).nesting as nat,
                    old(self).no_struct,
                ) == Out::Done(final(self).at(), v.tree()),
                Err(e) => struct_decl(
                    old(self).input(),
                    old(self).at(),
                    old(self).nesting as nat,
                    old(self).no_struct,
                ) == Out::<StructDeclTree>::Fail(e.failure()),
            },
    {
        proof {
            reveal(struct_decl);
        }
        self.expect(T::KwStruct)?;
        let name = self.expect_ident()?;
        let list = self.parse_generics()?;
        let generics = self.parse_where(list)?;
        let unit = self.accept(T::Semi)?;
        let fields = if unit {
            let out: Vec<Field> = Vec::new();
            proof {
                assert(fields_tree(out@) =~= Seq::empty());
            }
            out
        } else {
            self.parse_field_list()?
        };
        Ok(StructDecl {
            name,
            attributes: no_attributes(),
            documentation: None,
            generics,
            fields,
            is_pub: false,
        })
    }

    /// The payload of a variant.
    pub fn parse_variant_kind(&mut self) -> (r: Result<VariantKind, ParseError>)
        requires
            old(self).wf(),
        ensures
            match r {
                Ok(v) => kept(*old(self), *final(self), false) && variant_kind(
                    old(self).input(),
                    old(self).at(),
                    old(self).nesting as nat,
                    old(self).no_struct,
                ) == Out::Done(final(self).at(), v.tree()),
                Err(e) => variant_kind(
                    old(self).input(),
                    old(self).at(),
                    old(self).nesting as nat,
                    old(self).no_struct,
                ) == Out::<VariantKindTree>::Fail(e.failure()),
            },
    {
        proof {
            reveal(variant_kind);
        }
        if self.cur() == T::LParen {
            self.bump()?;
            let list = self.parse_type_list(T::RParen)?;
            self.expect(T::RParen)?;
            return Ok(VariantKind::Tuple(list));
        }
        if self.cur() == T::LBrace {
            let list = self.parse_field_list()?;
            return Ok(VariantKind::Struct(list));
        }
        Ok(VariantKind::Unit)
    }

    /// Variants up to the closing brace.
    pub fn parse_variants(&mut self) -> (r: Result<Vec<Variant>, ParseError>)
        requires
            old(self).wf(),
        ensures
            match r {
                Ok(v) => kept(*old(self), *final(self), false) && variants(
                    old(self).input(),
                    old(self).at(),
                    old(self).nesting as nat,
                    old(self).no_struct,
                    Seq::empty(),
                ) == Out::Done(final(self).at(), variants_tree(v@)),
                Err(e) => variants(
                    old(self).input(),
                    old(self).at(),
                    old(self).nesting as nat,
                    old(self).no_struct,
                    Seq::empty(),
                ) == Out::<Seq<VariantTree>>::Fail(e.failure()),
            },
    {
        proof {
            reveal_with_fuel(variants, 1);
        }
        let mut out: Vec<Variant> = Vec::new();
        proof {
            assert(variants_tree(out@) =~= Seq::empty());
        }
        loop
            invariant
                kept(*old(self), *self, false),
                variants(self.input(), self.at(), self.nesting as nat, self.no_struct, variants_tree(out@)) == variants(
                    old(self).input(),
                    old(self).at(),
                    old(self).nesting as nat,
                    old(self).no_struct,
                    Seq::empty(),
                ),
            decreases rem(self.input(), self.at()),
        {
            proof {
                reveal_with_fuel(variants, 1);
            }
            let ghost here = variants(self.input(), self.at(), self.nesting as nat, self.no_struct, variants_tree(out@));
            if self.cur() == T::RBrace {
                return Ok(out);
            }
            let documentation = self.leading_documentation();
            let marks = self.parse_attributes()?;
            let name = self.expect_ident()?;
            let kind = self.parse_variant_kind()?;
            let one = Variant {
                name, attributes: marks, documentation, kind
            };
            let ghost had = variants_tree(out@);
            let ghost model = one.tree();
            out.push(one);
            proof {
                assert(variants_tree(out@) =~= had.push(model));
            }
            let more = self.accept(T::Comma)?;
            if !more {
                return Ok(out);
            }
            proof {
                assert(here == variants(self.input(), self.at(), self.nesting as nat, self.no_struct, variants_tree(out@)));
            }
        }
    }

    /// An enum.
    pub fn parse_enum(&mut self) -> (r: Result<EnumDecl, ParseError>)
        requires
            old(self).wf(),
        ensures
            match r {
                Ok(v) => kept(*old(self), *final(self), true) && enum_decl(
                    old(self).input(),
                    old(self).at(),
                    old(self).nesting as nat,
                    old(self).no_struct,
                ) == Out::Done(final(self).at(), v.tree()),
                Err(e) => enum_decl(
                    old(self).input(),
                    old(self).at(),
                    old(self).nesting as nat,
                    old(self).no_struct,
                ) == Out::<EnumDeclTree>::Fail(e.failure()),
            },
    {
        proof {
            reveal(enum_decl);
        }
        self.expect(T::KwEnum)?;
        let name = self.expect_ident()?;
        let list = self.parse_generics()?;
        let generics = self.parse_where(list)?;
        self.expect(T::LBrace)?;
        let variants = self.parse_variants()?;
        self.expect(T::RBrace)?;
        Ok(EnumDecl {
            name,
            attributes: no_attributes(),
            documentation: None,
            generics,
            variants,
            is_pub: false,
        })
    }

    /// Methods up to the closing brace.
    pub fn parse_methods(&mut self) -> (r: Result<Vec<FnDecl>, ParseError>)
        requires
            old(self).wf(),
        ensures
            match r {
                Ok(v) => kept(*old(self), *final(self), false) && methods(
                    old(self).input(),
                    old(self).at(),
                    old(self).nesting as nat,
                    old(self).no_struct,
                    Seq::empty(),
                ) == Out::Done(final(self).at(), functions_tree(v@)),
                Err(e) => methods(
                    old(self).input(),
                    old(self).at(),
                    old(self).nesting as nat,
                    old(self).no_struct,
                    Seq::empty(),
                ) == Out::<Seq<FnDeclTree>>::Fail(e.failure()),
            },
    {
        proof {
            reveal_with_fuel(methods, 1);
        }
        let mut out: Vec<FnDecl> = Vec::new();
        proof {
            assert(functions_tree(out@) =~= Seq::empty());
        }
        loop
            invariant
                kept(*old(self), *self, false),
                methods(self.input(), self.at(), self.nesting as nat, self.no_struct, functions_tree(out@)) == methods(
                    old(self).input(),
                    old(self).at(),
                    old(self).nesting as nat,
                    old(self).no_struct,
                    Seq::empty(),
                ),
            decreases rem(self.input(), self.at()),
        {
            proof {
                reveal_with_fuel(methods, 1);
            }
            let ghost here = methods(self.input(), self.at(), self.nesting as nat, self.no_struct, functions_tree(out@));
            if self.cur() == T::RBrace || self.cur() == T::Eof {
                return Ok(out);
            }
            let documentation = self.leading_documentation();
            let marks = self.parse_attributes()?;
            let is_pub = self.accept(T::KwPub)?;
            let mut one = self.parse_fn()?;
            one.is_pub = is_pub;
            one.documentation = documentation;
            one.attributes = marks;
            let ghost had = functions_tree(out@);
            let ghost model = one.tree();
            out.push(one);
            proof {
                assert(functions_tree(out@) =~= had.push(model));
            }
            proof {
                assert(here == methods(self.input(), self.at(), self.nesting as nat, self.no_struct, functions_tree(out@)));
            }
        }
    }

    /// The trait and the type of an `impl`.
    pub fn parse_impl_names(&mut self) -> (r: Result<(Option<String>, String), ParseError>)
        requires
            old(self).wf(),
        ensures
            match r {
                Ok(v) => kept(*old(self), *final(self), true) && impl_names(
                    old(self).input(),
                    old(self).at(),
                    old(self).nesting as nat,
                    old(self).no_struct,
                ) == Out::Done(final(self).at(), (optional_text(v.0), v.1@)),
                Err(e) => impl_names(
                    old(self).input(),
                    old(self).at(),
                    old(self).nesting as nat,
                    old(self).no_struct,
                ) == Out::<(Option<Seq<char>>, Seq<char>)>::Fail(e.failure()),
            },
    {
        proof {
            reveal(impl_names);
        }
        let first = self.expect_ident()?;
        self.skip_generics()?;
        let of_trait = self.accept(T::KwFor)?;
        if !of_trait {
            return Ok((None, first));
        }
        let owner = self.expect_ident()?;
        self.skip_generics()?;
        Ok((Some(first), owner))
    }

    /// An `impl`.
    pub fn parse_impl(&mut self) -> (r: Result<ImplDecl, ParseError>)
        requires
            old(self).wf(),
        ensures
            match r {
                Ok(v) => kept(*old(self), *final(self), true) && impl_decl(
                    old(self).input(),
                    old(self).at(),
                    old(self).nesting as nat,
                    old(self).no_struct,
                ) == Out::Done(final(self).at(), v.tree()),
                Err(e) => impl_decl(
                    old(self).input(),
                    old(self).at(),
                    old(self).nesting as nat,
                    old(self).no_struct,
                ) == Out::<ImplDeclTree>::Fail(e.failure()),
            },
    {
        proof {
            reveal(impl_decl);
        }
        self.expect(T::KwImpl)?;
        let list = self.parse_generics()?;
        let names = self.parse_impl_names()?;
        let generics = self.parse_where(list)?;
        self.expect(T::LBrace)?;
        let methods = self.parse_methods()?;
        self.expect(T::RBrace)?;
        Ok(ImplDecl {
            attributes: no_attributes(),
            generics,
            owner_name: names.1,
            trait_name: names.0,
            methods,
        })
    }

    /// A name behind `as`, where there is one.
    pub fn parse_alias(&mut self) -> (r: Result<Option<String>, ParseError>)
        requires
            old(self).wf(),
        ensures
            match r {
                Ok(v) => kept(*old(self), *final(self), false) && optional_alias(
                    old(self).input(),
                    old(self).at(),
                    old(self).nesting as nat,
                    old(self).no_struct,
                ) == Out::Done(final(self).at(), optional_text(v)),
                Err(e) => optional_alias(
                    old(self).input(),
                    old(self).at(),
                    old(self).nesting as nat,
                    old(self).no_struct,
                ) == Out::<Option<Seq<char>>>::Fail(e.failure()),
            },
    {
        proof {
            reveal(optional_alias);
        }
        let some = self.accept(T::KwAs)?;
        if some {
            let name = self.expect_ident()?;
            Ok(Some(name))
        } else {
            Ok(None)
        }
    }

    /// Imports of a group up to its closing brace.
    pub fn parse_import_group(&mut self, prefix: &Vec<String>) -> (r: Result<Vec<UseImport>, ParseError>)
        requires
            old(self).wf(),
        ensures
            match r {
                Ok(v) => kept(*old(self), *final(self), false) && import_group(
                    old(self).input(),
                    old(self).at(),
                    old(self).nesting as nat,
                    old(self).no_struct,
                    texts(prefix@),
                    Seq::empty(),
                ) == Out::Done(final(self).at(), imports_tree(v@)),
                Err(e) => import_group(
                    old(self).input(),
                    old(self).at(),
                    old(self).nesting as nat,
                    old(self).no_struct,
                    texts(prefix@),
                    Seq::empty(),
                ) == Out::<Seq<UseImportTree>>::Fail(e.failure()),
            },
    {
        proof {
            reveal_with_fuel(import_group, 1);
        }
        let mut out: Vec<UseImport> = Vec::new();
        proof {
            assert(imports_tree(out@) =~= Seq::empty());
        }
        loop
            invariant
                kept(*old(self), *self, false),
                import_group(self.input(), self.at(), self.nesting as nat, self.no_struct, texts(prefix@), imports_tree(out@)) == import_group(
                    old(self).input(),
                    old(self).at(),
                    old(self).nesting as nat,
                    old(self).no_struct,
                    texts(prefix@),
                    Seq::empty(),
                ),
            decreases rem(self.input(), self.at()),
        {
            proof {
                reveal_with_fuel(import_group, 1);
            }
            let ghost here = import_group(self.input(), self.at(), self.nesting as nat, self.no_struct, texts(prefix@), imports_tree(out@));
            if self.cur() == T::RBrace {
                return Ok(out);
            }
            let leaf = self.expect_ident()?;
            let alias = self.parse_alias()?;
            let ghost name = leaf@;
            let mut path = copy_texts(prefix);
            path.push(leaf);
            proof {
                assert(texts(path@) =~= texts(prefix@).push(name));
            }
            let one = UseImport {
                path, alias
            };
            let ghost had = imports_tree(out@);
            let ghost model = one.tree();
            out.push(one);
            proof {
                assert(imports_tree(out@) =~= had.push(model));
            }
            let more = self.accept(T::Comma)?;
            if !more {
                return Ok(out);
            }
            proof {
                assert(here == import_group(self.input(), self.at(), self.nesting as nat, self.no_struct, texts(prefix@), imports_tree(out@)));
            }
        }
    }

    /// The rest of a `use` behind its first names.
    pub fn parse_import_rest(&mut self, first: Vec<String>) -> (r: Result<UseDecl, ParseError>)
        requires
            old(self).wf(),
        ensures
            match r {
                Ok(v) => kept(*old(self), *final(self), false) && import_rest(
                    old(self).input(),
                    old(self).at(),
                    old(self).nesting as nat,
                    old(self).no_struct,
                    texts(first@),
                ) == Out::Done(final(self).at(), v.tree()),
                Err(e) => import_rest(
                    old(self).input(),
                    old(self).at(),
                    old(self).nesting as nat,
                    old(self).no_struct,
                    texts(first@),
                ) == Out::<UseDeclTree>::Fail(e.failure()),
            },
    {
        proof {
            reveal_with_fuel(import_rest, 1);
        }
        let mut prefix = first;
        loop
            invariant
                kept(*old(self), *self, false),
                import_rest(self.input(), self.at(), self.nesting as nat, self.no_struct, texts(prefix@)) == import_rest(
                    old(self).input(),
                    old(self).at(),
                    old(self).nesting as nat,
                    old(self).no_struct,
                    texts(first@),
                ),
            decreases rem(self.input(), self.at()),
        {
            proof {
                reveal_with_fuel(import_rest, 1);
            }
            let ghost here = import_rest(self.input(), self.at(), self.nesting as nat, self.no_struct, texts(prefix@));
            if self.cur() != T::ColonColon {
                let alias = self.parse_alias()?;
                self.expect(T::Semi)?;
                let one = UseImport {
                    path: prefix, alias
                };
                let ghost model = one.tree();
                let mut imports: Vec<UseImport> = Vec::new();
                imports.push(one);
                proof {
                    assert(imports_tree(imports@) =~= seq![model]);
                }
                return Ok(UseDecl {
                    attributes: no_attributes(), imports
                });
            }
            self.bump()?;
            if self.cur() == T::LBrace {
                self.bump()?;
                let imports = self.parse_import_group(&prefix)?;
                self.expect(T::RBrace)?;
                self.expect(T::Semi)?;
                return Ok(UseDecl {
                    attributes: no_attributes(), imports
                });
            }
            let name = self.expect_ident()?;
            let ghost had = texts(prefix@);
            let ghost model = name@;
            prefix.push(name);
            proof {
                assert(texts(prefix@) =~= had.push(model));
            }
            proof {
                assert(here == import_rest(self.input(), self.at(), self.nesting as nat, self.no_struct, texts(prefix@)));
            }
        }
    }

    /// A `use`.
    pub fn parse_use(&mut self) -> (r: Result<UseDecl, ParseError>)
        requires
            old(self).wf(),
        ensures
            match r {
                Ok(v) => kept(*old(self), *final(self), true) && use_decl(
                    old(self).input(),
                    old(self).at(),
                    old(self).nesting as nat,
                    old(self).no_struct,
                ) == Out::Done(final(self).at(), v.tree()),
                Err(e) => use_decl(
                    old(self).input(),
                    old(self).at(),
                    old(self).nesting as nat,
                    old(self).no_struct,
                ) == Out::<UseDeclTree>::Fail(e.failure()),
            },
    {
        proof {
            reveal(use_decl);
        }
        self.expect(T::KwUse)?;
        let first = self.expect_ident()?;
        let ghost name = first@;
        let mut prefix: Vec<String> = Vec::new();
        prefix.push(first);
        proof {
            assert(texts(prefix@) =~= seq![name]);
        }
        self.parse_import_rest(prefix)
    }

    /// An annotation declaration.
    pub fn parse_annotation(&mut self) -> (r: Result<AnnotationDecl, ParseError>)
        requires
            old(self).wf(),
        ensures
            match r {
                Ok(v) => kept(*old(self), *final(self), true) && annotation_decl(
                    old(self).input(),
                    old(self).at(),
                    old(self).nesting as nat,
                    old(self).no_struct,
                ) == Out::Done(final(self).at(), v.tree()),
                Err(e) => annotation_decl(
                    old(self).input(),
                    old(self).at(),
                    old(self).nesting as nat,
                    old(self).no_struct,
                ) == Out::<AnnotationDeclTree>::Fail(e.failure()),
            },
    {
        proof {
            reveal(annotation_decl);
        }
        self.expect(T::Ident)?;
        let name_span = self.range();
        let name = self.expect_ident()?;
        self.expect(T::LParen)?;
        let params = self.parse_params()?;
        self.expect(T::RParen)?;
        self.expect(T::Semi)?;
        Ok(AnnotationDecl {
            name,
            name_span,
            attributes: no_attributes(),
            documentation: None,
            params,
            is_pub: false,
        })
    }

    /// An item.
    pub fn parse_item(&mut self) -> (r: Result<Item, ParseError>)
        requires
            old(self).wf(),
        ensures
            match r {
                Ok(v) => kept(*old(self), *final(self), true) && item(
                    old(self).input(),
                    old(self).at(),
                    old(self).nesting as nat,
                    old(self).no_struct,
                ) == Out::Done(final(self).at(), v.tree()),
                Err(e) => item(
                    old(self).input(),
                    old(self).at(),
                    old(self).nesting as nat,
                    old(self).no_struct,
                ) == Out::<ItemTree>::Fail(e.failure()),
            },
    {
        proof {
            reveal(item);
        }
        let documentation = self.leading_documentation();
        let marks = self.parse_attributes()?;
        let is_pub = self.accept(T::KwPub)?;
        match self.cur() {
            T::KwFn => {
                let mut one = self.parse_fn()?;
                one.is_pub = is_pub;
                one.documentation = documentation;
                one.attributes = marks;
                Ok(Item::Fn(one))
            },
            T::KwStruct => {
                let mut one = self.parse_struct()?;
                one.is_pub = is_pub;
                one.documentation = documentation;
                one.attributes = marks;
                Ok(Item::Struct(one))
            },
            T::KwEnum => {
                let mut one = self.parse_enum()?;
                one.is_pub = is_pub;
                one.documentation = documentation;
                one.attributes = marks;
                Ok(Item::Enum(one))
            },
            T::KwImpl => {
                let mut one = self.parse_impl()?;
                one.attributes = marks;
                Ok(Item::Impl(one))
            },
            T::KwTrait => {
                let mut one = self.parse_trait()?;
                one.is_pub = is_pub;
                one.documentation = documentation;
                one.attributes = marks;
                Ok(Item::Trait(one))
            },
            T::KwExtern => {
                let mut one = self.parse_host_block()?;
                one.documentation = documentation;
                one.attributes = marks;
                Ok(Item::Extern(one))
            },
            T::KwUse => {
                let mut one = self.parse_use()?;
                one.attributes = marks;
                Ok(Item::Use(one))
            },
            other => {
                if self.is_annotation_ahead() {
                    let mut one = self.parse_annotation()?;
                    one.is_pub = is_pub;
                    one.documentation = documentation;
                    one.attributes = marks;
                    Ok(Item::Annotation(one))
                } else {
                    Err(self.err(cat3("expected item (`fn`/`struct`/`enum`/`impl`/`trait`/`extern`/`use`), found `", other.user_string(), "`")))
                }
            },
        }
    }

    /// A statement of a chunk.
    pub fn parse_chunk_stmt(&mut self, terminator: T) -> (r: Result<Stmt, ParseError>)
        requires
            old(self).wf(),
        ensures
            match r {
                Ok(v) => kept(*old(self), *final(self), true) && chunk_stmt(
                    old(self).input(),
                    old(self).at(),
                    old(self).nesting as nat,
                    old(self).no_struct,
                    terminator,
                ) == Out::Done(final(self).at(), v.tree()),
                Err(e) => chunk_stmt(
                    old(self).input(),
                    old(self).at(),
                    old(self).nesting as nat,
                    old(self).no_struct,
                    terminator,
                ) == Out::<StmtTree>::Fail(e.failure()),
            },
    {
        proof {
            reveal(chunk_stmt);
        }
        let keyword = self.parse_keyword_stmt()?;
        match keyword {
            Some(one) => Ok(one), None => {
                let e = self.parse_expr()?;
                let closed = self.accept(T::Semi)?;
                if closed || ends_statement(&e) {
                    Ok(Stmt::Expr(e))
                } else {
                    Err(self.err(cat5("expected `;` or `", terminator.user_string(), "`, found `", self.cur().user_string(), "`")))
                }
            },
        }
    }

    /// The items and statements of a chunk up to a closing token.
    pub fn parse_chunk_contents(&mut self, terminator: T) -> (r: Result<Chunk, ParseError>)
        requires
            old(self).wf(),
        ensures
            match r {
                Ok(v) => kept(*old(self), *final(self), false) && chunk(
                    old(self).input(),
                    old(self).at(),
                    old(self).nesting as nat,
                    old(self).no_struct,
                    terminator,
                    empty_chunk_tree(),
                ) == Out::Done(final(self).at(), v.tree()),
                Err(e) => chunk(
                    old(self).input(),
                    old(self).at(),
                    old(self).nesting as nat,
                    old(self).no_struct,
                    terminator,
                    empty_chunk_tree(),
                ) == Out::<ChunkTree>::Fail(e.failure()),
            },
    {
        proof {
            reveal_with_fuel(chunk, 1);
        }
        let mut out = empty_chunk();
        loop
            invariant
                kept(*old(self), *self, false),
                chunk(self.input(), self.at(), self.nesting as nat, self.no_struct, terminator, out.tree()) == chunk(
                    old(self).input(),
                    old(self).at(),
                    old(self).nesting as nat,
                    old(self).no_struct,
                    terminator,
                    empty_chunk_tree(),
                ),
            decreases rem(self.input(), self.at()),
        {
            proof {
                reveal_with_fuel(chunk, 1);
            }
            let ghost here = chunk(self.input(), self.at(), self.nesting as nat, self.no_struct, terminator, out.tree());
            if self.cur() == terminator || self.cur() == T::Eof {
                return Ok(out);
            }
            if is_item_start(self.cur()) || self.is_annotation_ahead() {
                let one = self.parse_item()?;
                push_item(&mut out, one);
            } else {
                let blank = self.blank_line_before_current();
                let one = self.parse_chunk_stmt(terminator)?;
                push_chunk_stmt(&mut out, one, blank);
            }
            proof {
                assert(here == chunk(self.input(), self.at(), self.nesting as nat, self.no_struct, terminator, out.tree()));
            }
        }
    }
}

} // verus!
