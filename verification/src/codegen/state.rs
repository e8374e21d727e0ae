//! The state of code generation and its elementary steps.

use vstd::prelude::*;

use crate::backend_layout::{
    entry, names_of, temporary_name, BackendLayout, LayoutModel, Place, PlaceModel,
};
use crate::hir::{DefId, LocalId, ModuleId, ResolvedHir};
use crate::lua_ir::{
    exprs_model, inlines_model, m_call, m_integer, m_name, no_exprs, one_expr, one_text, two_exprs,
    Builder, BuilderModel, EntryModel, Expr as LuaExpr, ExprModel, FunctionTarget, InlineModel,
    InlineStatement, OpenerModel, StatementModel,
};
use crate::table::{KeySet, Table};
use crate::text::{decimal, decimal_text, texts};
use crate::token::SourceRange;
use crate::typed::TypedProgram;

verus! {

/// What code generation reads and never changes.
pub struct Env<'a> {
    pub program: &'a TypedProgram,
    /// Whether every module becomes a file of its own.
    pub separate: bool,
    pub flattened_module_type: Option<DefId>,
    pub flattened_module_class: String,
    /// The locals that some expression refers to.
    pub used_locals: KeySet<LocalId>,
    /// The types whose values carry a metatable.
    pub metatable_types: KeySet<DefId>,
}

/// What code generation reads, over mathematical sets.
pub struct EnvModel {
    pub program: TypedProgram,
    pub separate: bool,
    pub flattened_module_type: Option<DefId>,
    pub flattened_module_class: Seq<char>,
    pub used_locals: Set<LocalId>,
    pub metatable_types: Set<DefId>,
}

impl<'a> Env<'a> {
    pub open spec fn view(&self) -> EnvModel {
        EnvModel {
            program: *self.program,
            separate: self.separate,
            flattened_module_type: self.flattened_module_type,
            flattened_module_class: self.flattened_module_class@,
            used_locals: self.used_locals@,
            metatable_types: self.metatable_types@,
        }
    }
}

/// Where the value of an expression goes.
#[derive(Debug)]
pub enum Dest {
    Discard,
    Var(LuaExpr),
    Return,
}

pub enum DestModel {
    Discard,
    Var(ExprModel),
    Return,
}

impl Dest {
    /// The destination over mathematical trees.
    pub open spec fn model(self) -> DestModel {
        match self {
            Dest::Discard => DestModel::Discard,
            Dest::Var(target) => DestModel::Var(target.model()),
            Dest::Return => DestModel::Return,
        }
    }
}

/// A Lua module that the generated file requires.
#[derive(Debug)]
pub struct RuntimeImport {
    pub module: String,
    pub alias: String,
    pub abi: Option<u32>,
    /// The members that have a local name of their own, in order.
    pub exports: Vec<(String, String)>,
}

pub struct ImportModel {
    pub module: Seq<char>,
    pub alias: Seq<char>,
    pub abi: Option<u32>,
    pub exports: Seq<(Seq<char>, Seq<char>)>,
}

/// Pairs over mathematical texts.
pub open spec fn pairs_model(list: Seq<(String, String)>) -> Seq<(Seq<char>, Seq<char>)> {
    Seq::new(list.len(), |i: int| (list[i].0@, list[i].1@))
}

impl RuntimeImport {
    /// The import over mathematical texts.
    pub open spec fn model(self) -> ImportModel {
        ImportModel {
            module: self.module@,
            alias: self.alias@,
            abi: self.abi,
            exports: pairs_model(self.exports@),
        }
    }
}

/// The imports over mathematical texts.
pub open spec fn imports_model(list: Seq<RuntimeImport>) -> Seq<ImportModel> {
    Seq::new(list.len(), |i: int| list[i].model())
}

/// The replacements of one scope.
pub open spec fn scope_model(table: Table<LocalId, LuaExpr>) -> Map<LocalId, ExprModel> {
    Map::new(|k: LocalId| table.at(k) is Some, |k: LocalId| (table.at(k)->0).model())
}

/// The replacements of all scopes, outermost first.
pub open spec fn scopes_model(list: Seq<Table<LocalId, LuaExpr>>) -> Seq<Map<LocalId, ExprModel>> {
    Seq::new(list.len(), |i: int| scope_model(list[i]))
}

/// The targets of `break` values, outermost first.
pub open spec fn breaks_model(list: Seq<Option<LuaExpr>>) -> Seq<Option<ExprModel>> {
    Seq::new(
        list.len(),
        |i: int|
            match list[i] {
                Some(e) => Some(e.model()),
                None => None,
            },
    )
}

/// The state of code generation.
pub struct Cg {
    pub lua: BuilderModel,
    pub imports: Seq<ImportModel>,
    pub declarations: Map<ModuleId, Seq<char>>,
    pub table_create: bool,
    pub closure_returns: Seq<(Seq<char>, Seq<char>)>,
    pub breaks: Seq<Option<ExprModel>>,
    pub scopes: Seq<Map<LocalId, ExprModel>>,
    pub nonnegative: Seq<LocalId>,
    pub layout: LayoutModel,
    pub current: ModuleId,
    pub dependencies: Seq<ModuleId>,
    /// Whether everything that the front end owes was there.
    pub ok: bool,
}

impl Cg {
    /// A broken state: something that the front end owes was missing.
    pub open spec fn fault(self) -> Cg {
        Cg { ok: false, ..self }
    }

    /// The state with another builder.
    pub open spec fn with(self, lua: BuilderModel) -> Cg {
        Cg { lua, ..self }
    }

    pub open spec fn emit(self, statement: StatementModel) -> Cg {
        self.with(self.lua.emit(statement))
    }

    pub open spec fn annotation(self, text: Seq<char>) -> Cg {
        self.emit(StatementModel::Annotation(text))
    }

    pub open spec fn local(self, name: Seq<char>, value: Option<ExprModel>) -> Cg {
        self.emit(
            StatementModel::Local {
                names: seq![name],
                values: match value {
                    Some(value) => seq![value],
                    None => Seq::empty(),
                },
            },
        )
    }

    pub open spec fn locals(self, names: Seq<Seq<char>>) -> Cg {
        self.emit(StatementModel::Local { names, values: Seq::empty() })
    }

    pub open spec fn assign(self, target: ExprModel, value: ExprModel) -> Cg {
        self.emit(StatementModel::Assign { targets: seq![target], values: seq![value] })
    }

    pub open spec fn return_value(self, value: ExprModel) -> Cg {
        self.emit(StatementModel::Return(seq![value]))
    }

    pub open spec fn return_none(self) -> Cg {
        self.emit(StatementModel::Return(Seq::empty()))
    }

    pub open spec fn expression(self, expression: ExprModel) -> Cg {
        self.emit(StatementModel::Expression(expression))
    }

    pub open spec fn blank(self) -> Cg {
        self.with(self.lua.entry(EntryModel::Blank))
    }

    pub open spec fn label(self, label: Seq<char>) -> Cg {
        self.emit(StatementModel::Label(label))
    }

    pub open spec fn goto(self, label: Seq<char>) -> Cg {
        self.emit(StatementModel::Goto(label))
    }

    pub open spec fn brk(self) -> Cg {
        self.emit(StatementModel::Break)
    }

    pub open spec fn compact_if(self, condition: ExprModel, statements: Seq<InlineModel>) -> Cg {
        self.emit(StatementModel::CompactIf { condition, statements })
    }

    pub open spec fn begin(self, opener: OpenerModel) -> Cg {
        self.with(self.lua.begin(opener))
    }

    pub open spec fn begin_if(self, condition: ExprModel) -> Cg {
        self.begin(OpenerModel::If { branches: Seq::empty(), condition })
    }

    pub open spec fn begin_else(self) -> Cg {
        self.with(self.lua.begin_else())
    }

    pub open spec fn end(self) -> Cg {
        self.with(self.lua.end())
    }

    pub open spec fn push_anchor(self, source: SourceRange) -> Cg {
        self.with(BuilderModel { anchors: self.lua.anchors.push(source), ..self.lua })
    }

    pub open spec fn pop_anchor(self) -> Cg {
        self.with(BuilderModel { anchors: self.lua.anchors.drop_last(), ..self.lua })
    }

    /// A fresh temporary.
    pub open spec fn fresh(self) -> (Cg, Seq<char>) {
        if self.layout.next_temporary == u64::MAX {
            (self.fault(), "__t"@)
        } else {
            (
                Cg { layout: self.layout.with_temporary(), ..self },
                temporary_name((self.layout.next_temporary + 1) as nat),
            )
        }
    }

    /// The Lua name of a source local.
    pub open spec fn local_name(self, name: Seq<char>) -> Seq<char> {
        self.layout.local_name(self.current, name)
    }

    /// A table with room for some records.
    pub open spec fn table_create(self, sequence: ExprModel, records: nat) -> (Cg, ExprModel) {
        (
            Cg { table_create: true, ..self },
            m_call(m_name("tbcreate"@), seq![sequence, m_integer(decimal(records))]),
        )
    }

    /// An empty table with room for some records.
    pub open spec fn empty_table(self, records: nat) -> (Cg, ExprModel) {
        if records == 0 {
            (self, ExprModel::Table(Seq::empty()))
        } else {
            self.table_create(m_integer("0"@), records)
        }
    }

    /// The place of a definition; a placeholder where it has none.
    pub open spec fn definition_place(self, definition: DefId) -> (Cg, PlaceModel) {
        match entry(self.layout.definitions, definition) {
            Some(place) => (self, place),
            None => (self.fault(), PlaceModel::named("nil"@)),
        }
    }

    /// The place of a module; a placeholder where it has none.
    pub open spec fn module_place(self, module: ModuleId) -> (Cg, PlaceModel) {
        match entry(self.layout.modules, module) {
            Some(place) => (self, place),
            None => (self.fault(), PlaceModel::named("nil"@)),
        }
    }

    /// The state with a replacement in the innermost scope.
    pub open spec fn substitute(self, local: LocalId, value: ExprModel) -> Cg {
        if self.scopes.len() == 0 {
            self.fault()
        } else {
            Cg {
                scopes: self.scopes.drop_last().push(self.scopes.last().insert(local, value)),
                ..self
            }
        }
    }

    /// The state with a replacement for the binding at a source range.
    pub open spec fn bind_substitution(
        self,
        hir: ResolvedHir,
        source: SourceRange,
        value: ExprModel,
    ) -> Cg {
        match hir.binding_targets.at(source) {
            Some(local) => self.substitute(local, value),
            None => self.fault(),
        }
    }

    pub open spec fn push_scope(self, scope: Map<LocalId, ExprModel>) -> Cg {
        Cg { scopes: self.scopes.push(scope), ..self }
    }

    pub open spec fn pop_scope(self) -> Cg {
        if self.scopes.len() == 0 {
            self
        } else {
            Cg { scopes: self.scopes.drop_last(), ..self }
        }
    }

    pub open spec fn push_break(self, target: Option<ExprModel>) -> Cg {
        Cg { breaks: self.breaks.push(target), ..self }
    }

    pub open spec fn pop_break(self) -> Cg {
        if self.breaks.len() == 0 {
            self
        } else {
            Cg { breaks: self.breaks.drop_last(), ..self }
        }
    }
}

/// The replacement of a local in the innermost scope that has one.
pub open spec fn replacement(scopes: Seq<Map<LocalId, ExprModel>>, local: LocalId) -> Option<
    ExprModel,
>
    decreases scopes.len(),
{
    if scopes.len() == 0 {
        None
    } else if scopes.last().dom().contains(local) {
        Some(scopes.last()[local])
    } else {
        replacement(scopes.drop_last(), local)
    }
}

/// Generates Lua statements.
pub struct Codegen {
    pub lua: Builder,
    pub runtime_imports: Vec<RuntimeImport>,
    pub declaration_imports: Table<ModuleId, String>,
    pub uses_table_create: bool,
    pub closure_return_targets: Vec<(String, String)>,
    pub loop_break_targets: Vec<Option<LuaExpr>>,
    pub local_substitutions: Vec<Table<LocalId, LuaExpr>>,
    pub nonnegative_integer_locals: Vec<LocalId>,
    pub layout: BackendLayout,
    pub current_module: ModuleId,
    pub module_dependencies: Vec<ModuleId>,
    pub ok: bool,
}

impl Codegen {
    /// The state over mathematical collections.
    pub open spec fn view(&self) -> Cg {
        Cg {
            lua: self.lua@,
            imports: imports_model(self.runtime_imports@),
            declarations: names_of(self.declaration_imports),
            table_create: self.uses_table_create,
            closure_returns: pairs_model(self.closure_return_targets@),
            breaks: breaks_model(self.loop_break_targets@),
            scopes: scopes_model(self.local_substitutions@),
            nonnegative: self.nonnegative_integer_locals@,
            layout: self.layout@,
            current: self.current_module,
            dependencies: self.module_dependencies@,
            ok: self.ok,
        }
    }

    pub fn fault(&mut self)
        ensures
            final(self)@ == old(self)@.fault(),
    {
        self.ok = false;
    }

    pub fn annotation(&mut self, source: &str)
        ensures
            final(self)@ == old(self)@.annotation(source@),
            final(self)@.lua.shape() == old(self)@.lua.shape(),
    {
        self.lua.annotation(source);
    }

    pub fn local(&mut self, name: &str, value: LuaExpr)
        ensures
            final(self)@ == old(self)@.local(name@, Some(value.model())),
            final(self)@.lua.shape() == old(self)@.lua.shape(),
    {
        self.lua.local(one_text(name.to_string()), one_value(value));
    }

    pub fn declare(&mut self, name: &str)
        ensures
            final(self)@ == old(self)@.local(name@, None),
            final(self)@.lua.shape() == old(self)@.lua.shape(),
    {
        let values: Vec<LuaExpr> = Vec::new();
        proof {
            assert(exprs_model(values@) =~= Seq::<ExprModel>::empty());
        }
        self.lua.local(one_text(name.to_string()), values);
    }

    pub fn locals(&mut self, names: Vec<String>)
        requires
            names@.len() > 0,
        ensures
            final(self)@ == old(self)@.locals(texts(names@)),
            final(self)@.lua.shape() == old(self)@.lua.shape(),
    {
        let values: Vec<LuaExpr> = Vec::new();
        proof {
            assert(exprs_model(values@) =~= Seq::<ExprModel>::empty());
        }
        self.lua.local(names, values);
    }

    pub fn assign(&mut self, target: LuaExpr, value: LuaExpr)
        ensures
            final(self)@ == old(self)@.assign(target.model(), value.model()),
            final(self)@.lua.shape() == old(self)@.lua.shape(),
    {
        self.lua.assign(target, value);
    }

    pub fn return_value(&mut self, value: LuaExpr)
        ensures
            final(self)@ == old(self)@.return_value(value.model()),
            final(self)@.lua.shape() == old(self)@.lua.shape(),
    {
        self.lua.return_values(one_expr(value));
    }

    pub fn return_none(&mut self)
        ensures
            final(self)@ == old(self)@.return_none(),
            final(self)@.lua.shape() == old(self)@.lua.shape(),
    {
        self.lua.return_values(no_exprs());
    }

    pub fn expression_statement(&mut self, expression: LuaExpr)
        ensures
            final(self)@ == old(self)@.expression(expression.model()),
            final(self)@.lua.shape() == old(self)@.lua.shape(),
    {
        self.lua.expression(expression);
    }

    pub fn blank(&mut self)
        ensures
            final(self)@ == old(self)@.blank(),
            final(self)@.lua.shape() == old(self)@.lua.shape(),
    {
        self.lua.blank();
    }

    pub fn label(&mut self, label: &str)
        ensures
            final(self)@ == old(self)@.label(label@),
            final(self)@.lua.shape() == old(self)@.lua.shape(),
    {
        self.lua.label(label);
    }

    pub fn goto(&mut self, label: &str)
        ensures
            final(self)@ == old(self)@.goto(label@),
            final(self)@.lua.shape() == old(self)@.lua.shape(),
    {
        self.lua.goto(label);
    }

    pub fn break_statement(&mut self)
        ensures
            final(self)@ == old(self)@.brk(),
            final(self)@.lua.shape() == old(self)@.lua.shape(),
    {
        self.lua.break_statement();
    }

    pub fn compact_if(&mut self, condition: LuaExpr, statement: InlineStatement)
        ensures
            final(self)@ == old(self)@.compact_if(condition.model(), seq![statement.model()]),
            final(self)@.lua.shape() == old(self)@.lua.shape(),
    {
        let mut statements: Vec<InlineStatement> = Vec::new();
        statements.push(statement);
        proof {
            assert(inlines_model(statements@) =~= seq![statement.model()]);
        }
        self.lua.compact_if(condition, statements);
    }

    pub fn compact_if_break(&mut self, condition: LuaExpr, target: LuaExpr, value: LuaExpr)
        ensures
            final(self)@ == old(self)@.compact_if(
                condition.model(),
                seq![
                    InlineModel::Assign { target: target.model(), value: value.model() },
                    InlineModel::Break,
                ],
            ),
            final(self)@.lua.shape() == old(self)@.lua.shape(),
    {
        let mut statements: Vec<InlineStatement> = Vec::new();
        statements.push(InlineStatement::Assign { target, value });
        statements.push(InlineStatement::Break);
        proof {
            assert(inlines_model(statements@) =~= seq![
                InlineModel::Assign { target: target.model(), value: value.model() },
                InlineModel::Break,
            ]);
        }
        self.lua.compact_if(condition, statements);
    }

    pub fn begin_do(&mut self)
        ensures
            final(self)@ == old(self)@.begin(OpenerModel::Do),
    {
        self.lua.begin_do();
    }

    pub fn begin_while(&mut self, condition: LuaExpr)
        ensures
            final(self)@ == old(self)@.begin(OpenerModel::While { condition: condition.model() }),
    {
        self.lua.begin_while(condition);
    }

    pub fn begin_numeric_for(&mut self, variable: &str, start: LuaExpr, stop: LuaExpr)
        ensures
            final(self)@ == old(self)@.begin(
                OpenerModel::NumericFor {
                    variable: variable@,
                    start: start.model(),
                    stop: stop.model(),
                },
            ),
    {
        self.lua.begin_numeric_for(variable, start, stop);
    }

    pub fn begin_function(&mut self, target: FunctionTarget, params: Vec<String>)
        ensures
            final(self)@ == old(self)@.begin(
                OpenerModel::Function { target: target.model(), params: texts(params@) },
            ),
    {
        self.lua.begin_function(target, params);
    }

    pub fn begin_if(&mut self, condition: LuaExpr)
        ensures
            final(self)@ == old(self)@.begin_if(condition.model()),
    {
        self.lua.begin_if(condition);
    }

    pub fn begin_else(&mut self)
        requires
            old(self)@.lua.in_branch(),
        ensures
            final(self)@ == old(self)@.begin_else(),
    {
        self.lua.begin_else();
    }

    pub fn end_block(&mut self)
        requires
            !(old(self)@.lua.frames is Empty),
        ensures
            final(self)@ == old(self)@.end(),
            final(self)@.lua.shape() == (BuilderModel {
                frames: *old(self)@.lua.frames->outer,
                ..old(self)@.lua
            }).shape(),
    {
        self.lua.end_block();
    }

    pub fn push_anchor(&mut self, source: SourceRange)
        ensures
            final(self)@ == old(self)@.push_anchor(source),
    {
        self.lua.push_anchor(source);
    }

    pub fn pop_anchor(&mut self)
        requires
            old(self)@.lua.anchors.len() > 0,
        ensures
            final(self)@ == old(self)@.pop_anchor(),
    {
        self.lua.pop_anchor();
    }

    pub fn fresh_tmp(&mut self) -> (r: String)
        ensures
            (final(self)@, r@) == old(self)@.fresh(),
            final(self)@.lua == old(self)@.lua,
    {
        if self.layout.next_temporary == u64::MAX {
            self.ok = false;
            return "__t".to_string();
        }
        self.layout.fresh_temporary()
    }

    pub fn local_name(&self, name: &str) -> (r: String)
        ensures
            r@ == self@.local_name(name@),
    {
        self.layout.local_name(self.current_module, name)
    }

    pub fn table_create(&mut self, sequence: LuaExpr, records: usize) -> (r: LuaExpr)
        ensures
            (final(self)@, r.model()) == old(self)@.table_create(sequence.model(), records as nat),
            final(self)@.lua == old(self)@.lua,
    {
        self.uses_table_create = true;
        LuaExpr::Name("tbcreate".to_string()).call(
            two_exprs(sequence, LuaExpr::integer(decimal_text(records as u64).as_str())),
        )
    }

    pub fn empty_table(&mut self, records: usize) -> (r: LuaExpr)
        ensures
            (final(self)@, r.model()) == old(self)@.empty_table(records as nat),
            final(self)@.lua == old(self)@.lua,
    {
        if records == 0 {
            let fields: Vec<crate::lua_ir::TableField> = Vec::new();
            proof {
                assert(crate::lua_ir::fields_model(fields@) =~= Seq::empty());
            }
            LuaExpr::Table(fields)
        } else {
            self.table_create(LuaExpr::integer("0"), records)
        }
    }

    pub fn definition_place(&mut self, definition: DefId) -> (r: Place)
        ensures
            (final(self)@, r@) == old(self)@.definition_place(definition),
            final(self)@.lua == old(self)@.lua,
    {
        match self.layout.definition(definition) {
            Some(place) => place.copy(),
            None => {
                self.ok = false;
                placeholder()
            },
        }
    }

    pub fn module_place(&mut self, module: ModuleId) -> (r: Place)
        ensures
            (final(self)@, r@) == old(self)@.module_place(module),
            final(self)@.lua == old(self)@.lua,
    {
        match self.layout.module(module) {
            Some(place) => place.copy(),
            None => {
                self.ok = false;
                placeholder()
            },
        }
    }

    pub fn bind_local_substitution(&mut self, hir: &ResolvedHir, source: SourceRange, value: LuaExpr)
        ensures
            final(self)@ == old(self)@.bind_substitution(*hir, source, value.model()),
            final(self)@.lua == old(self)@.lua,
    {
        let local = match hir.binding_targets.get(&source) {
            Some(local) => *local,
            None => {
                self.ok = false;
                return ;
            },
        };
        let ghost scopes = self.local_substitutions@;
        match self.local_substitutions.pop() {
            None => {
                proof {
                    assert(self.local_substitutions@ =~= scopes);
                    assert(scopes_model(scopes).len() == 0);
                }
                self.ok = false;
            },
            Some(scope) => {
                let mut scope = scope;
                let ghost before = scope;
                let _ = scope.insert(local, value);
                proof {
                    lemma_scope_insert(before, scope, local, value);
                }
                self.local_substitutions.push(scope);
                proof {
                    assert(scopes_model(self.local_substitutions@) =~= scopes_model(
                        scopes,
                    ).drop_last().push(scope_model(scope)));
                    assert(scopes_model(scopes).last() == scope_model(before));
                }
            },
        }
    }

    pub fn push_scope(&mut self, scope: Table<LocalId, LuaExpr>)
        ensures
            final(self)@ == old(self)@.push_scope(scope_model(scope)),
    {
        self.local_substitutions.push(scope);
        proof {
            assert(self@.scopes =~= old(self)@.scopes.push(scope_model(scope)));
        }
    }

    pub fn push_empty_scope(&mut self)
        ensures
            final(self)@ == old(self)@.push_scope(Map::empty()),
    {
        let scope: Table<LocalId, LuaExpr> = Table::new();
        proof {
            assert(scope_model(scope) =~= Map::empty());
        }
        self.push_scope(scope);
    }

    pub fn pop_scope(&mut self)
        ensures
            final(self)@ == old(self)@.pop_scope(),
    {
        let ghost scopes = self.local_substitutions@;
        let _ = self.local_substitutions.pop();
        proof {
            if scopes.len() > 0 {
                assert(self@.scopes =~= old(self)@.scopes.drop_last());
            } else {
                assert(self@.scopes =~= old(self)@.scopes);
            }
        }
    }

    pub fn push_break(&mut self, target: Option<LuaExpr>)
        ensures
            final(self)@ == old(self)@.push_break(
                match target {
                    Some(e) => Some(e.model()),
                    None => None,
                },
            ),
    {
        self.loop_break_targets.push(target);
        proof {
            assert(self@.breaks =~= old(self)@.breaks.push(
                match target {
                    Some(e) => Some(e.model()),
                    None => None,
                },
            ));
        }
    }

    pub fn pop_break(&mut self)
        ensures
            final(self)@ == old(self)@.pop_break(),
    {
        let ghost breaks = self.loop_break_targets@;
        let _ = self.loop_break_targets.pop();
        proof {
            if breaks.len() > 0 {
                assert(self@.breaks =~= old(self)@.breaks.drop_last());
            } else {
                assert(self@.breaks =~= old(self)@.breaks);
            }
        }
    }

    /// The replacement of a local.
    pub fn replacement(&self, local: LocalId) -> (r: Option<LuaExpr>)
        ensures
            match r {
                Some(e) => replacement(self@.scopes, local) == Some(e.model()),
                None => replacement(self@.scopes, local) is None,
            },
    {
        let mut i: usize = self.local_substitutions.len();
        proof {
            assert(self@.scopes.take(i as int) =~= self@.scopes);
        }
        while i > 0
            invariant
                i <= self.local_substitutions.len(),
                replacement(self@.scopes.take(i as int), local) == replacement(self@.scopes, local),
            decreases i,
        {
            proof {
                let head = self@.scopes.take(i as int);
                assert(head.last() == scope_model(self.local_substitutions@[i - 1]));
                assert(head.drop_last() =~= self@.scopes.take(i - 1));
            }
            match self.local_substitutions[i - 1].get(&local) {
                Some(value) => {
                    return Some(value.copy());
                },
                None => {},
            }
            i -= 1;
        }
        None
    }
}

proof fn lemma_scope_insert(
    before: Table<LocalId, LuaExpr>,
    after: Table<LocalId, LuaExpr>,
    local: LocalId,
    value: LuaExpr,
)
    requires
        after@ == before@.insert(local, value),
    ensures
        scope_model(after) == scope_model(before).insert(local, value.model()),
{
    crate::table::lemma_insert_at(before, after, local, value);
    assert(scope_model(after) =~= scope_model(before).insert(local, value.model()));
}

fn placeholder() -> (r: Place)
    ensures
        r@ == PlaceModel::named("nil"@),
{
    let r = Place { root: "nil".to_string(), fields: Vec::new() };
    proof {
        assert(r@.fields =~= Seq::empty());
    }
    r
}

fn one_value(value: LuaExpr) -> (r: Vec<LuaExpr>)
    ensures
        r@.len() == 1,
        exprs_model(r@) == seq![value.model()],
{
    let r = one_expr(value);
    proof {
        assert(exprs_model(r@).len() == r@.len());
    }
    r
}

} // verus!
