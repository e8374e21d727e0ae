//! Type annotations for Lua language servers, and the names of module tables.

use vstd::prelude::*;

use super::state::{Cg, Codegen, Env, EnvModel};
use crate::ast::{FnDecl, GenericParam, StructDecl, Type};
use crate::backend_layout::{identifier_of, user_identifier};
use crate::hir::TypeTarget;
use crate::text::{after_last, cat2, cat3, cat4, join, joined, same_text, tail_after_last, texts};

verus! {

/// The name of the Lua table of a module: the last segment of its path. The name is
/// a convention of this back end; nothing outside a generated file depends on it.
pub open spec fn module_table(module_name: Seq<char>) -> Seq<char> {
    identifier_of(after_last(module_name, '.'))
}

/// The name of the Lua table of a module.
pub fn module_table_identifier(module_name: &str) -> (r: String)
    ensures
        r@ == module_table(module_name@),
{
    user_identifier(tail_after_last(module_name, '.').as_str())
}

/// The class name of a type that stands for its whole module. Language servers see
/// it; where it repeats the module's name it is this back end's choice to leave it
/// out.
pub open spec fn flattened_class(module_name: Seq<char>, name: Seq<char>) -> Seq<char> {
    if module_table(module_name) == identifier_of(name) {
        module_name
    } else {
        module_name + "."@ + name
    }
}

/// The class name of a type that stands for its whole module.
pub fn flattened_type_class_name(module_name: &str, name: &str) -> (r: String)
    ensures
        r@ == flattened_class(module_name@, name@),
{
    if same_text(module_table_identifier(module_name).as_str(), user_identifier(name).as_str()) {
        module_name.to_string()
    } else {
        cat3(module_name, ".", name)
    }
}

/// The Lua class of a type that stands for its whole module.
pub open spec fn flattened_type(env: EnvModel, ty: Type) -> Option<Seq<char>> {
    let hir = env.program.hir;
    match ty {
        Type::Path { id, .. } => match hir.type_targets.at(id) {
            Some(TypeTarget::Item(definition)) => if env.separate && hir.has_definition(definition)
                && env.program.single_public_types.at(hir.spec_definition(definition).module)
                == Some(definition) && hir.has_module(hir.spec_definition(definition).module) {
                Some(
                    flattened_class(
                        joined(
                            texts(hir.spec_module(hir.spec_definition(definition).module).path@),
                            "."@,
                        ),
                        hir.spec_definition(definition).name@,
                    ),
                )
            } else {
                None
            },
            _ => None,
        },
        _ => None,
    }
}

fn flattened_type_text(env: &Env, ty: &Type) -> (r: Option<String>)
    ensures
        match r {
            Some(text) => flattened_type(env@, *ty) == Some(text@),
            None => flattened_type(env@, *ty) is None,
        },
{
    let hir = &env.program.hir;
    match ty {
        Type::Path { id, .. } => match hir.type_targets.get(id) {
            Some(TypeTarget::Item(definition)) => {
                if !env.separate {
                    return None;
                }
                let data = match hir.find_definition(*definition) {
                    Some(data) => data,
                    None => {
                        return None;
                    },
                };
                match env.program.single_public_types.get(&data.module) {
                    Some(single) => {
                        if *single != *definition {
                            return None;
                        }
                    },
                    None => {
                        return None;
                    },
                }
                match hir.find_module(data.module) {
                    Some(module) => Some(
                        flattened_type_class_name(
                            join(&module.path, ".").as_str(),
                            data.name.as_str(),
                        ),
                    ),
                    None => None,
                }
            },
            _ => None,
        },
        _ => None,
    }
}

/// Whether the name is one of an integer type.
pub open spec fn is_integer_name(name: Seq<char>) -> bool {
    name == "i64"@ || name == "i8"@ || name == "i16"@ || name == "i32"@ || name == "isize"@
        || name == "u8"@ || name == "u16"@ || name == "u32"@ || name == "u64"@ || name == "usize"@
}

fn names_integer(name: &str) -> (r: bool)
    ensures
        r == is_integer_name(name@),
{
    same_text(name, "i64") || same_text(name, "i8") || same_text(name, "i16") || same_text(
        name,
        "i32",
    ) || same_text(name, "isize") || same_text(name, "u8") || same_text(name, "u16")
        || same_text(name, "u32") || same_text(name, "u64") || same_text(name, "usize")
}

/// The annotation of a type.
pub open spec fn type_text(env: EnvModel, ty: Type) -> Seq<char>
    decreases ty, 0int,
{
    match ty {
        Type::Path { name, args, .. } => match flattened_type(env, ty) {
            Some(class) => class,
            None => if is_integer_name(name@) {
                "integer"@
            } else if name@ == "f64"@ || name@ == "f32"@ {
                "number"@
            } else if name@ == "bool"@ {
                "boolean"@
            } else if name@ == "String"@ || name@ == "str"@ {
                "string"@
            } else if name@ == "Vec"@ {
                if args@.len() > 0 {
                    type_text(env, args@[0]) + "[]"@
                } else {
                    "table"@
                }
            } else if name@ == "Option"@ {
                if args@.len() > 0 {
                    type_text(env, args@[0]) + "|nil"@
                } else {
                    "any|nil"@
                }
            } else if name@ == "Result"@ || name@ == "HashMap"@ {
                "table"@
            } else {
                name@
            },
        },
        Type::Ref { inner, .. } => type_text(env, *inner),
        Type::Function { params, ret } => "fun("@ + types_text(env, params@, 0) + "): "@
            + type_text(env, *ret),
        Type::Tuple(items) => "["@ + types_text(env, items@, 0) + "]"@,
        Type::Never => "never"@,
        Type::Unit => "nil"@,
    }
}

/// The annotations of `list[from..]` with commas between them.
pub open spec fn types_text(env: EnvModel, list: Seq<Type>, from: int) -> Seq<char>
    decreases list, list.len() - from,
{
    if from < 0 || from >= list.len() {
        Seq::empty()
    } else if from == list.len() - 1 {
        type_text(env, list[from])
    } else {
        type_text(env, list[from]) + ", "@ + types_text(env, list, from + 1)
    }
}

/// The annotation of a type.
pub fn type_to_emmylua(env: &Env, ty: &Type) -> (r: String)
    ensures
        r@ == type_text(env@, *ty),
    decreases *ty, 0int,
{
    match ty {
        Type::Path { name, args, .. } => {
            if let Some(class) = flattened_type_text(env, ty) {
                return class;
            }
            let text = name.as_str();
            if names_integer(text) {
                "integer".to_string()
            } else if same_text(text, "f64") || same_text(text, "f32") {
                "number".to_string()
            } else if same_text(text, "bool") {
                "boolean".to_string()
            } else if same_text(text, "String") || same_text(text, "str") {
                "string".to_string()
            } else if same_text(text, "Vec") {
                if args.len() > 0 {
                    cat2(type_to_emmylua(env, &args[0]).as_str(), "[]")
                } else {
                    "table".to_string()
                }
            } else if same_text(text, "Option") {
                if args.len() > 0 {
                    cat2(type_to_emmylua(env, &args[0]).as_str(), "|nil")
                } else {
                    "any|nil".to_string()
                }
            } else if same_text(text, "Result") || same_text(text, "HashMap") {
                "table".to_string()
            } else {
                name.clone()
            }
        },
        Type::Ref { inner, .. } => type_to_emmylua(env, inner),
        Type::Function { params, ret } => cat4(
            "fun(",
            types_to_emmylua(env, params).as_str(),
            "): ",
            type_to_emmylua(env, ret).as_str(),
        ),
        Type::Tuple(items) => cat3("[", types_to_emmylua(env, items).as_str(), "]"),
        Type::Never => "never".to_string(),
        Type::Unit => "nil".to_string(),
    }
}

fn types_to_emmylua(env: &Env, list: &Vec<Type>) -> (r: String)
    ensures
        r@ == types_text(env@, list@, 0),
    decreases *list, 0int,
{
    let mut out = String::new();
    let mut i: usize = 0;
    while i < list.len()
        invariant
            i <= list.len(),
            out@ + types_text(env@, list@, i as int) == types_text(env@, list@, 0),
        decreases list.len() - i,
    {
        let ghost before = out@;
        out.append(type_to_emmylua(env, &list[i]).as_str());
        if i + 1 < list.len() {
            out.append(", ");
        }
        i += 1;
        proof {
            assert(out@ + types_text(env@, list@, i as int) =~= before + types_text(
                env@,
                list@,
                i - 1,
            ));
        }
    }
    proof {
        assert(out@ + Seq::<char>::empty() =~= out@);
    }
    out
}

/// The names of generic parameters.
pub open spec fn generic_names(generics: Seq<GenericParam>) -> Seq<Seq<char>> {
    Seq::new(generics.len(), |i: int| generics[i].name@)
}

impl Cg {
    /// The annotation of generic parameters, where there are any.
    pub open spec fn generic_annotation(self, generics: Seq<GenericParam>) -> Cg {
        if generics.len() == 0 {
            self
        } else {
            self.annotation("---@generic "@ + joined(generic_names(generics), ", "@))
        }
    }

    /// The annotation of a struct.
    pub open spec fn struct_annotation(self, structure: StructDecl) -> Cg {
        self.annotation("---@class "@ + structure.name@).generic_annotation(structure.generics@)
    }

    /// The annotation of a return type, where there is one.
    pub open spec fn return_annotation(self, env: EnvModel, ret: Option<Type>) -> Cg {
        match ret {
            Some(ty) => self.annotation("---@return "@ + type_text(env, ty)),
            None => self,
        }
    }

    /// The annotation of a function. Parameter types are explicit in the source.
    pub open spec fn fn_annotation(self, env: EnvModel, function: FnDecl) -> Cg {
        self.generic_annotation(function.generics@).return_annotation(env, function.ret)
    }
}

impl Codegen {
    pub fn emit_generic_annotation(&mut self, generics: &Vec<GenericParam>)
        ensures
            final(self)@ == old(self)@.generic_annotation(generics@),
            final(self)@.lua.shape() == old(self)@.lua.shape(),
    {
        if generics.len() == 0 {
            return ;
        }
        let mut names: Vec<String> = Vec::new();
        let mut i: usize = 0;
        while i < generics.len()
            invariant
                i <= generics.len(),
                names@.len() == i,
                forall|k: int| 0 <= k < i ==> (#[trigger] names@[k])@ == generics@[k].name@,
            decreases generics.len() - i,
        {
            names.push(generics[i].name.clone());
            i += 1;
        }
        proof {
            assert(texts(names@) =~= generic_names(generics@));
        }
        self.annotation(cat2("---@generic ", join(&names, ", ").as_str()).as_str());
    }

    pub fn emit_struct_annotation(&mut self, structure: &StructDecl)
        ensures
            final(self)@ == old(self)@.struct_annotation(*structure),
            final(self)@.lua.shape() == old(self)@.lua.shape(),
    {
        self.annotation(cat2("---@class ", structure.name.as_str()).as_str());
        self.emit_generic_annotation(&structure.generics);
    }

    pub fn emit_return_annotation(&mut self, env: &Env, ret: &Option<Type>)
        ensures
            final(self)@ == old(self)@.return_annotation(env@, *ret),
            final(self)@.lua.shape() == old(self)@.lua.shape(),
    {
        if let Some(ty) = ret {
            self.annotation(cat2("---@return ", type_to_emmylua(env, ty).as_str()).as_str());
        }
    }

    pub fn emit_fn_annotation(&mut self, env: &Env, function: &FnDecl)
        ensures
            final(self)@ == old(self)@.fn_annotation(env@, *function),
            final(self)@.lua.shape() == old(self)@.lua.shape(),
    {
        self.emit_generic_annotation(&function.generics);
        self.emit_return_annotation(env, &function.ret);
    }
}

} // verus!
