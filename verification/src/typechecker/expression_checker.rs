//! The expression checker: generates and solves the obligations of the
//! expressions and patterns of a group of functions.

use crate::constants::BOOL_MODULE_NAME;
use crate::constants::BOOL_TYPE_NAME;
use crate::constants::FLOAT_MODULE_NAME;
use crate::constants::FLOAT_TYPE_NAME;
use crate::constants::INT_MODULE_NAME;
use crate::constants::INT_TYPE_NAME;
use crate::constants::STRING_MODULE_NAME;
use crate::constants::STRING_TYPE_NAME;
use crate::interpreter::interpreter::piece_views;
use crate::interpreter::interpreter::split_format;
use crate::ir::class::ClassMemberId;
use crate::ir::data::TypeDefId;
use crate::ir::expr::Case;
use crate::ir::expr::Expr;
use crate::ir::expr::ExprId;
use crate::ir::expr::FieldAccessInfo;
use crate::ir::expr::RecordFieldValueExpr;
use crate::ir::expr::RecordUpdateInfo;
use crate::ir::function::FunctionId;
use crate::ir::pattern::Pattern;
use crate::ir::pattern::PatternId;
use crate::ir::program::Program;
use crate::ir::type_var_generator::TypeVarGenerator;
use crate::ir::types::type_models;
use crate::ir::types::Type;
use crate::ir::types::TypeModel;
use crate::ir::unifier::Substitution;
use crate::ir::unifier::SubstitutionModel;
use crate::ir::unifier::Unifier;
use crate::location_info::LocationId;
use crate::typechecker::common::apply_types;
use crate::typechecker::common::copy_types;
use crate::typechecker::common::duplicate_items;
use crate::util::table_get;
use crate::typechecker::error::name_views;
use crate::typechecker::error::TypecheckError;
use crate::typechecker::error::TypecheckErrorModel;
use crate::typechecker::inference;
use crate::typechecker::common::member_type_models;
use crate::typechecker::inference::Context;
use crate::typechecker::inference::Pass;
use crate::util::ItemContainer;
use crate::typechecker::type_processor::function_type_from;
use crate::typechecker::type_processor::fresh_vars;
use crate::typechecker::type_processor::process_type_signature;
use crate::typechecker::type_store::StoreModel;
use crate::typechecker::type_store::TypeStore;
use vstd::prelude::*;
use vstd::string::*;

verus! {

/// A group of functions that are inferred together: a strongly connected
/// component of the call graph.
#[derive(Debug)]
pub struct DependencyGroup {
    pub items: Vec<FunctionId>,
}

/// The expression checker: what inference reads and does not change.
pub struct ExpressionChecker<'a> {
    pub program: &'a Program,
    pub member_types: &'a ItemContainer<(Type, Type)>,
    pub group: &'a DependencyGroup,
    pub depth_limit: usize,
}

impl<'a> View for ExpressionChecker<'a> {
    type V = Context;

    open spec fn view(&self) -> Context {
        Context {
            program: self.program.declarations(),
            members: member_type_models(self.member_types.items@),
            group: self.group.items@,
            depth_limit: self.depth_limit,
        }
    }
}

/// Whether what a unification returned is what `expected` says.
pub open spec fn same_substitution(r: Option<Substitution>, expected: Option<SubstitutionModel>) -> bool {
    match r {
        Some(sub) => expected == Some(sub@),
        None => expected.is_none(),
    }
}

/// A data type's own type and the types of its parts, with fresh variables.
#[verifier::loop_isolation(false)]
fn fresh_data(own: &Type, parts: &Vec<Type>, generator: &mut TypeVarGenerator) -> (r:
    Option<(Type, Vec<Type>)>)
    ensures
        match inference::fresh_data(own@, type_models(parts@), old(generator).next_index()) {
            Some((copy, copies, next)) => r.is_some() && r.unwrap().0@ == copy && type_models(
                r.unwrap().1@,
            ) == copies && final(generator).next_index() == next,
            None => r.is_none() && final(generator).next_index() == old(generator).next_index(),
        },
{
    let saved = generator.copy();
    let mut arg_map: Vec<(usize, usize)> = Vec::new();
    let mut copies: Vec<Type> = Vec::new();
    assert(type_models(copies@) =~= Seq::<TypeModel>::empty());
    let mut i: usize = 0;
    while i < parts.len()
        invariant
            i <= parts.len(),
            saved.next_index() == old(generator).next_index(),
            duplicate_items(
                type_models(parts@),
                0,
                Seq::empty(),
                Seq::empty(),
                old(generator).next_index(),
            ) == duplicate_items(
                type_models(parts@),
                i as int,
                type_models(copies@),
                arg_map@,
                generator.next_index(),
            ),
        decreases parts.len() - i,
    {
        let ghost before = type_models(copies@);
        match parts[i].duplicate(&mut arg_map, generator) {
            Some(copy) => {
                copies.push(copy);
                assert(type_models(copies@) =~= before.push(copy@));
            },
            None => {
                *generator = saved;
                return None;
            },
        }
        i = i + 1;
    }
    match own.duplicate(&mut arg_map, generator) {
        Some(copy) => Some((copy, copies)),
        None => {
            *generator = saved;
            None
        },
    }
}

/// What is expected of the type of a tuple of which the item at position
/// `index` is accessed.
fn at_least(index: usize) -> (r: String)
    ensures
        r@ == inference::at_least_text(index),
{
    proof {
        reveal_strlit("<tuple with at least ");
        reveal_strlit(" item(s)>");
    }
    let mut r = String::from_str("<tuple with at least ");
    let count = crate::interpreter::show::show_number(index as u128 + 1);
    r.append(count.as_str());
    r.append(" item(s)>");
    assert(r@ =~= inference::at_least_text(index));
    r
}

/// The names of a list, with ` or ` between them.
fn joined(names: &Vec<String>) -> (r: String)
    ensures
        r@ == inference::joined_names(name_views(names@), 0),
{
    proof {
        reveal_strlit(" or ");
    }
    let ghost views = name_views(names@);
    let mut r = String::new();
    let mut i: usize = 0;
    assert(Seq::<char>::empty() + inference::joined_names(views, 0) =~= inference::joined_names(
        views,
        0,
    ));
    while i < names.len()
        invariant
            i <= names.len(),
            views == name_views(names@),
            inference::joined_names(views, 0) == r@ + inference::joined_names(views, i as int),
        decreases names.len() - i,
    {
        let ghost before = r@;
        if i > 0 {
            r.append(" or ");
        }
        assert(views[i as int] == names@[i as int]@);
        r.append(names[i].as_str());
        assert(r@ + inference::joined_names(views, i + 1) =~= before + inference::joined_names(
            views,
            i as int,
        ));
        i = i + 1;
    }
    assert(r@ + Seq::<char>::empty() =~= r@);
    r
}

/// What the substitution of a unification makes of a type.
pub open spec fn substitution_model(sub: Option<Substitution>) -> Option<SubstitutionModel> {
    match sub {
        Some(s) => Some(s@),
        None => None,
    }
}

/// A type as the substitution of a unification makes it; a copy of the
/// type where the unification failed.
fn applied(sub: &Option<Substitution>, ty: &Type) -> (r: Type)
    ensures
        r@ == inference::applied(substitution_model(*sub), ty@),
{
    match sub {
        Some(s) => s.apply(ty),
        None => ty.copy(),
    }
}

/// Each type of a list as the substitution of a unification makes it;
/// copies of the types where the unification failed.
fn applied_types(sub: &Option<Substitution>, types: &Vec<Type>) -> (r: Vec<Type>)
    ensures
        type_models(r@) == inference::applied_types(substitution_model(*sub), type_models(types@)),
{
    match sub {
        Some(s) => apply_types(s, types),
        None => copy_types(types),
    }
}

/// A copy of a type with fresh variables.
fn fresh_type(ty: &Type, generator: &mut TypeVarGenerator) -> (r: Option<Type>)
    ensures
        match ty@.duplicate(Seq::empty(), old(generator).next_index()) {
            Some((copy, _, next)) => r.is_some() && r.unwrap()@ == copy && final(generator).next_index() == next,
            None => r.is_none() && final(generator).next_index() == old(generator).next_index(),
        },
{
    let saved = generator.copy();
    let mut arg_map: Vec<(usize, usize)> = Vec::new();
    match ty.duplicate(&mut arg_map, generator) {
        Some(copy) => Some(copy),
        None => {
            *generator = saved;
            None
        },
    }
}

/// Whether the group holds the function.
fn group_contains(items: &Vec<FunctionId>, id: FunctionId) -> (r: bool)
    ensures
        r == items@.contains(id),
{
    let mut i: usize = 0;
    while i < items.len()
        invariant
            i <= items.len(),
            forall|k: int| 0 <= k < i ==> items@[k] != id,
        decreases items.len() - i,
    {
        if items[i].id == id.id {
            return true;
        }
        i = i + 1;
    }
    false
}

impl<'a> ExpressionChecker<'a> {
    pub fn new(
        program: &'a Program,
        member_types: &'a ItemContainer<(Type, Type)>,
        group: &'a DependencyGroup,
        depth_limit: usize,
    ) -> (r: ExpressionChecker<'a>)
        ensures
            r.program == program,
            r.member_types == member_types,
            r.group == group,
            r.depth_limit == depth_limit,
            r@ == (Context {
                program: program.declarations(),
                members: member_type_models(member_types.items@),
                group: group.items@,
                depth_limit,
            }),
    {
        ExpressionChecker { program, member_types, group, depth_limit }
    }

    /// The name of a type.
    fn typedef_name(&self, id: TypeDefId) -> (r: String)
        ensures
            r@ == inference::typedef_name(self@.program, id),
    {
        match self.program.typedefs.get(id.id) {
            Some(crate::ir::data::TypeDef::Record(record)) => record.name.clone(),
            Some(crate::ir::data::TypeDef::Adt(adt)) => adt.name.clone(),
            None => String::new(),
        }
    }

    /// The names of the records that the candidates of a field access are
    /// for.
    fn record_names(&self, infos: &Vec<FieldAccessInfo>) -> (r: Vec<String>)
        ensures
            name_views(r@) == inference::record_names(self@.program, infos@),
    {
        let mut r: Vec<String> = Vec::new();
        let mut i: usize = 0;
        while i < infos.len()
            invariant
                i <= infos.len(),
                r.len() == i,
                forall|k: int|
                    0 <= k < i ==> (#[trigger] r@[k])@ == inference::typedef_name(
                        self@.program,
                        infos@[k].record_id,
                    ),
            decreases infos.len() - i,
        {
            r.push(self.typedef_name(infos[i].record_id));
            i = i + 1;
        }
        assert(name_views(r@) =~= inference::record_names(self@.program, infos@));
        r
    }

    /// The names of the records that the updates of a record update are
    /// for.
    fn update_names(&self, updates: &Vec<RecordUpdateInfo>) -> (r: Vec<String>)
        ensures
            name_views(r@) == inference::update_names(self@.program, updates@),
    {
        let mut r: Vec<String> = Vec::new();
        let mut i: usize = 0;
        while i < updates.len()
            invariant
                i <= updates.len(),
                r.len() == i,
                forall|k: int|
                    0 <= k < i ==> (#[trigger] r@[k])@ == inference::typedef_name(
                        self@.program,
                        updates@[k].record_id,
                    ),
            decreases updates.len() - i,
        {
            r.push(self.typedef_name(updates[i].record_id));
            i = i + 1;
        }
        assert(name_views(r@) =~= inference::update_names(self@.program, updates@));
        r
    }

    /// The name of a variant of an algebraic data type.
    fn variant_name(&self, id: TypeDefId, index: usize) -> (r: String)
        ensures
            r@ == inference::variant_name(self@.program, id, index),
    {
        match self.program.typedefs.get(id.id) {
            Some(crate::ir::data::TypeDef::Adt(adt)) => {
                if index < adt.variants.len() {
                    adt.variants[index].name.clone()
                } else {
                    String::new()
                }
            },
            _ => String::new(),
        }
    }

    /// The place of an expression.
    fn expr_place(&self, id: ExprId) -> (r: LocationId)
        ensures
            r == inference::expr_place(self@, id),
    {
        match self.program.exprs.get(id.id) {
            Some(info) => info.location_id,
            None => LocationId { id: 0 },
        }
    }

    /// The place of a pattern.
    fn pattern_place(&self, id: PatternId) -> (r: LocationId)
        ensures
            r == inference::pattern_place(self@, id),
    {
        match self.program.patterns.get(id.id) {
            Some(info) => info.location_id,
            None => LocationId { id: 0 },
        }
    }

    /// Reports that the program is invalid at an expression.
    fn invalid_expr(&self, store: &mut TypeStore, id: ExprId)
        ensures
            final(store)@ == old(store)@.error(
                TypecheckErrorModel::InvalidProgram(inference::expr_place(self@, id)),
            ),
    {
        let place = self.expr_place(id);
        store.add_error(TypecheckError::InvalidProgram(place));
    }

    /// Reports that the program is invalid at a pattern.
    fn invalid_pattern(&self, store: &mut TypeStore, id: PatternId)
        ensures
            final(store)@ == old(store)@.error(
                TypecheckErrorModel::InvalidProgram(inference::pattern_place(self@, id)),
            ),
    {
        let place = self.pattern_place(id);
        store.add_error(TypecheckError::InvalidProgram(place));
    }

    /// Unifies the type of an expression with `ty`.
    pub fn match_expr_with(&self, store: &mut TypeStore, expr_id: ExprId, ty: &Type) -> (r: Option<
        Substitution,
    >)
        ensures
            final(store)@ == inference::unify_expr(self@, old(store)@, ty@, expr_id).0,
            same_substitution(r, inference::unify_expr(self@, old(store)@, ty@, expr_id).1),
    {
        let found = match store.get_expr_type(&expr_id) {
            Some(t) => t.copy(),
            None => {
                self.invalid_expr(store, expr_id);
                return None;
            },
        };
        let place = self.expr_place(expr_id);
        store.unify(ty, &found, place, &self.group.items)
    }

    /// Unifies the type of a pattern with `ty`.
    pub fn match_pattern_with(&self, store: &mut TypeStore, pattern_id: PatternId, ty: &Type) -> (r:
        Option<Substitution>)
        ensures
            final(store)@ == inference::unify_pattern(self@, old(store)@, ty@, pattern_id).0,
            same_substitution(r, inference::unify_pattern(self@, old(store)@, ty@, pattern_id).1),
    {
        let found = match store.get_pattern_type(&pattern_id) {
            Some(t) => t.copy(),
            None => {
                self.invalid_pattern(store, pattern_id);
                return None;
            },
        };
        let place = self.pattern_place(pattern_id);
        store.unify(ty, &found, place, &self.group.items)
    }

    /// Unifies the types of two expressions.
    pub fn match_exprs(&self, store: &mut TypeStore, expr_id1: ExprId, expr_id2: ExprId)
        ensures
            final(store)@ == inference::unify_exprs(self@, old(store)@, expr_id1, expr_id2),
    {
        let expected = match store.get_expr_type(&expr_id1) {
            Some(t) => t.copy(),
            None => {
                self.invalid_expr(store, expr_id1);
                return ;
            },
        };
        self.match_expr_with(store, expr_id2, &expected);
    }

    /// Unifies the type of an expression with that of a pattern.
    pub fn match_expr_with_pattern(&self, store: &mut TypeStore, expr_id: ExprId, pattern_id: PatternId)
        ensures
            final(store)@ == inference::unify_expr_pattern(self@, old(store)@, expr_id, pattern_id),
    {
        let expected = match store.get_expr_type(&expr_id) {
            Some(t) => t.copy(),
            None => {
                self.invalid_expr(store, expr_id);
                return ;
            },
        };
        self.match_pattern_with(store, pattern_id, &expected);
    }

    /// Unifies the type of an expression with a built-in type.
    fn match_expr_named(&self, store: &mut TypeStore, module: &str, name: &str, expr_id: ExprId)
        ensures
            final(store)@ == inference::unify_expr_named(
                self@,
                old(store)@,
                module@,
                name@,
                expr_id,
            ),
    {
        match self.program.find_plain_type(module, name) {
            Some(ty) => {
                self.match_expr_with(store, expr_id, &ty);
            },
            None => {
                self.invalid_expr(store, expr_id);
            },
        }
    }

    /// Unifies the type of a pattern with a built-in type.
    fn match_pattern_named(&self, store: &mut TypeStore, module: &str, name: &str, pattern_id: PatternId)
        ensures
            final(store)@ == inference::unify_pattern_named(
                self@,
                old(store)@,
                module@,
                name@,
                pattern_id,
            ),
    {
        match self.program.find_plain_type(module, name) {
            Some(ty) => {
                self.match_pattern_with(store, pattern_id, &ty);
            },
            None => {
                self.invalid_pattern(store, pattern_id);
            },
        }
    }

    /// The types of a list of expressions.
    fn types_of(store: &TypeStore, ids: &Vec<ExprId>) -> (r: Vec<Type>)
        ensures
            type_models(r@) == inference::types_of(store@, ids@),
    {
        let mut r: Vec<Type> = Vec::new();
        let mut i: usize = 0;
        while i < ids.len()
            invariant
                i <= ids.len(),
                r.len() == i,
                forall|k: int| 0 <= k < i ==> (#[trigger] r@[k])@ == inference::types_of(store@, ids@)[k],
            decreases ids.len() - i,
        {
            let ty = match store.get_expr_type(&ids[i]) {
                Some(t) => t.copy(),
                None => {
                    let items: Vec<Type> = Vec::new();
                    assert(type_models(items@) =~= Seq::<TypeModel>::empty());
                    Type::Tuple(items)
                },
            };
            r.push(ty);
            i = i + 1;
        }
        assert(type_models(r@) =~= inference::types_of(store@, ids@));
        r
    }

    /// The types of a list of patterns.
    fn pattern_types_of(store: &TypeStore, ids: &Vec<PatternId>) -> (r: Vec<Type>)
        ensures
            type_models(r@) == inference::pattern_types_of(store@, ids@),
    {
        let mut r: Vec<Type> = Vec::new();
        let mut i: usize = 0;
        while i < ids.len()
            invariant
                i <= ids.len(),
                r.len() == i,
                forall|k: int|
                    0 <= k < i ==> (#[trigger] r@[k])@ == inference::pattern_types_of(
                        store@,
                        ids@,
                    )[k],
            decreases ids.len() - i,
        {
            let ty = match store.get_pattern_type(&ids[i]) {
                Some(t) => t.copy(),
                None => {
                    let items: Vec<Type> = Vec::new();
                    assert(type_models(items@) =~= Seq::<TypeModel>::empty());
                    Type::Tuple(items)
                },
            };
            r.push(ty);
            i = i + 1;
        }
        assert(type_models(r@) =~= inference::pattern_types_of(store@, ids@));
        r
    }

    /// A fresh instance of the data type whose constructor is `constructor`.
    fn fresh_instance(store: &mut TypeStore, constructor: FunctionId) -> (r: Option<(Type, Vec<Type>)>)
        ensures
            match old(store)@.function(constructor) {
                Some(info) => match inference::fresh_data(info.result, info.args, old(store)@.next) {
                    Some((copy, copies, next)) => r.is_some() && r.unwrap().0@ == copy
                        && type_models(r.unwrap().1@) == copies && final(store)@ == (StoreModel {
                        next,
                        ..old(store)@
                    }),
                    None => r.is_none() && final(store)@ == old(store)@,
                },
                None => r.is_none() && final(store)@ == old(store)@,
            },
    {
        let info = match store.function_type_info_store.find(&constructor) {
            Some(info) => info.copy(),
            None => {
                return None;
            },
        };
        fresh_data(&info.result, &info.args, &mut store.type_var_generator)
    }

    /// A fresh instance of a record.
    fn fresh_record(&self, store: &mut TypeStore, record_id: TypeDefId) -> (r: Option<
        (Type, Vec<Type>),
    >)
        ensures
            match inference::fresh_record(self@, old(store)@, record_id) {
                Some((copy, copies, next)) => r.is_some() && r.unwrap().0@ == copy && type_models(
                    r.unwrap().1@,
                ) == copies && final(store)@ == (StoreModel { next, ..old(store)@ }),
                None => r.is_none() && final(store)@ == old(store)@,
            },
    {
        match self.program.typedefs.get(record_id.id) {
            Some(crate::ir::data::TypeDef::Record(record)) => Self::fresh_instance(
                store,
                record.constructor,
            ),
            _ => None,
        }
    }

    /// A fresh instance of a variant.
    fn fresh_variant(&self, store: &mut TypeStore, type_id: TypeDefId, index: usize) -> (r: Option<
        (Type, Vec<Type>),
    >)
        ensures
            match inference::fresh_variant(self@, old(store)@, type_id, index) {
                Some((copy, copies, next)) => r.is_some() && r.unwrap().0@ == copy && type_models(
                    r.unwrap().1@,
                ) == copies && final(store)@ == (StoreModel { next, ..old(store)@ }),
                None => r.is_none() && final(store)@ == old(store)@,
            },
    {
        match self.program.typedefs.get(type_id.id) {
            Some(crate::ir::data::TypeDef::Adt(adt)) => {
                if index < adt.variants.len() {
                    Self::fresh_instance(store, adt.variants[index].constructor)
                } else {
                    None
                }
            },
            _ => None,
        }
    }

    /// Reports that the arguments of a call do not fit the function.
    fn argument_mismatch(&self, store: &mut TypeStore, function_type: &Type, args: &Vec<ExprId>, expr_id: ExprId)
        ensures
            final(store)@ == old(store)@.error(
                TypecheckErrorModel::FunctionArgumentMismatch(
                    inference::expr_place(self@, expr_id),
                    inference::types_of(old(store)@, args@),
                    function_type@,
                ),
            ),
    {
        let place = self.expr_place(expr_id);
        let types = Self::types_of(store, args);
        store.add_error(
            TypecheckError::FunctionArgumentMismatch(place, types, function_type.copy()),
        );
    }

    /// Checks a call: walks the function type along the arguments and
    /// unifies what is left with the type of the call.
    #[verifier::loop_isolation(false)]
    fn check_function_call(
        &self,
        store: &mut TypeStore,
        function_type: &Type,
        args: &Vec<ExprId>,
        expr_id: ExprId,
    )
        ensures
            final(store)@ == inference::check_call(
                self@,
                old(store)@,
                function_type@,
                args@,
                expr_id,
            ),
    {
        let place = self.expr_place(expr_id);
        let mut current = function_type.copy();
        let mut i: usize = 0;
        while i < args.len()
            invariant
                i <= args.len(),
                inference::call_args(
                    self@,
                    old(store)@,
                    function_type@,
                    function_type@,
                    args@,
                    0,
                    expr_id,
                ) == inference::call_args(
                    self@,
                    store@,
                    function_type@,
                    current@,
                    args@,
                    i as int,
                    expr_id,
                ),
            decreases args.len() - i,
        {
            let found = match store.get_expr_type(&args[i]) {
                Some(t) => Some(t.copy()),
                None => None,
            };
            match (&current, found) {
                (Type::Function(arg_type, rest), Some(found)) => {
                    match store.try_unify(arg_type, &found, place, &self.group.items) {
                        Ok(sub) => {
                            let next = sub.apply(rest);
                            current = next;
                        },
                        Err(_) => {
                            self.argument_mismatch(store, function_type, args, expr_id);
                            return ;
                        },
                    }
                },
                _ => {
                    self.argument_mismatch(store, function_type, args, expr_id);
                    return ;
                },
            }
            i = i + 1;
        }
        self.match_expr_with(store, expr_id, &current);
    }

    /// Unifies the type of each expression of a list with that of `with`.
    #[verifier::loop_isolation(false)]
    fn unify_item_types(&self, store: &mut TypeStore, item_type: Type, ids: &Vec<ExprId>)
        ensures
            final(store)@ == inference::unify_item_types(
                self@,
                old(store)@,
                item_type@,
                ids@,
                0,
            ),
    {
        let mut current = item_type;
        let mut i: usize = 0;
        while i < ids.len()
            invariant
                i <= ids.len(),
                inference::unify_item_types(self@, old(store)@, item_type@, ids@, 0)
                    == inference::unify_item_types(self@, store@, current@, ids@, i as int),
            decreases ids.len() - i,
        {
            match self.match_expr_with(store, ids[i], &current) {
                Some(sub) => {
                    let next = sub.apply(&current);
                    current = next;
                },
                None => {},
            }
            i = i + 1;
        }
    }

    /// Checks the items of a record expression against the types of the
    /// fields.
    #[verifier::loop_isolation(false)]
    fn check_record_items(
        &self,
        store: &mut TypeStore,
        fields: Vec<Type>,
        items: &Vec<RecordFieldValueExpr>,
        expr_id: ExprId,
    )
        ensures
            final(store)@ == inference::record_items(
                self@,
                old(store)@,
                type_models(fields@),
                items@,
                0,
                expr_id,
            ),
    {
        let mut current = fields;
        let mut i: usize = 0;
        while i < items.len()
            invariant
                i <= items.len(),
                inference::record_items(
                    self@,
                    old(store)@,
                    type_models(fields@),
                    items@,
                    0,
                    expr_id,
                ) == inference::record_items(
                    self@,
                    store@,
                    type_models(current@),
                    items@,
                    i as int,
                    expr_id,
                ),
            decreases items.len() - i,
        {
            if items[i].index >= current.len() {
                self.invalid_expr(store, expr_id);
            } else {
                assert(type_models(current@)[items@[i as int].index as int]
                    == current@[items@[i as int].index as int]@);
                match self.match_expr_with(store, items[i].expr_id, &current[items[i].index]) {
                    Some(sub) => {
                        let next = apply_types(&sub, &current);
                        current = next;
                    },
                    None => {},
                }
            }
            i = i + 1;
        }
    }

    /// Unifies the types of sub-patterns with the types of the parts of a
    /// data type.
    #[verifier::loop_isolation(false)]
    fn unify_parts(&self, store: &mut TypeStore, parts: Vec<Type>, ids: &Vec<PatternId>)
        ensures
            final(store)@ == inference::unify_parts(
                self@,
                old(store)@,
                type_models(parts@),
                ids@,
                0,
            ),
    {
        let mut current = parts;
        let mut i: usize = 0;
        while i < ids.len() && i < current.len()
            invariant
                i <= ids.len(),
                current.len() == parts.len(),
                inference::unify_parts(self@, old(store)@, type_models(parts@), ids@, 0)
                    == inference::unify_parts(
                    self@,
                    store@,
                    type_models(current@),
                    ids@,
                    i as int,
                ),
            decreases ids.len() - i,
        {
            assert(type_models(current@)[i as int] == current@[i as int]@);
            match self.match_pattern_with(store, ids[i], &current[i]) {
                Some(sub) => {
                    let next = apply_types(&sub, &current);
                    assert(type_models(next@).len() == next@.len());
                    assert(type_models(current@).len() == current@.len());
                    current = next;
                },
                None => {},
            }
            i = i + 1;
        }
    }

    /// The candidates of a field access whose record unifies with the
    /// type of the receiver.
    #[verifier::loop_isolation(false)]
    fn field_candidates(&self, store: &mut TypeStore, receiver: &Type, infos: &Vec<FieldAccessInfo>) -> (found:
        Vec<usize>)
        ensures
            (Seq::new(found@.len(), |i: int| found@[i] as int), final(store)@.next)
                == inference::field_candidates(
                self@,
                old(store)@,
                receiver@,
                infos@,
                0,
                Seq::empty(),
                old(store)@.next,
            ),
            final(store)@ == (StoreModel { next: final(store)@.next, ..old(store)@ }),
            forall|i: int| 0 <= i < found@.len() ==> (#[trigger] found@[i]) < infos@.len(),
    {
        let mut found: Vec<usize> = Vec::new();
        let mut i: usize = 0;
        assert(Seq::new(found@.len(), |i: int| found@[i] as int) =~= Seq::<int>::empty());
        while i < infos.len()
            invariant
                i <= infos.len(),
                store@ == (StoreModel { next: store@.next, ..old(store)@ }),
                forall|k: int| 0 <= k < found@.len() ==> (#[trigger] found@[k]) < infos@.len(),
                inference::field_candidates(
                    self@,
                    old(store)@,
                    receiver@,
                    infos@,
                    0,
                    Seq::empty(),
                    old(store)@.next,
                ) == inference::field_candidates(
                    self@,
                    old(store)@,
                    receiver@,
                    infos@,
                    i as int,
                    Seq::new(found@.len(), |k: int| found@[k] as int),
                    store@.next,
                ),
            decreases infos.len() - i,
        {
            match self.fresh_record(store, infos[i].record_id) {
                Some((record_type, _)) => {
                    let mut unifier = Unifier::new(store.type_var_generator.copy());
                    if unifier.unify(receiver, &record_type).is_ok() {
                        let ghost before = Seq::new(found@.len(), |k: int| found@[k] as int);
                        found.push(i);
                        assert(Seq::new(found@.len(), |k: int| found@[k] as int) =~= before.push(
                            i as int,
                        ));
                    }
                },
                None => {},
            }
            i = i + 1;
        }
        found
    }

    /// Checks the cases of a case expression.
    #[verifier::loop_isolation(false)]
    fn check_cases(&self, store: &mut TypeStore, scrutinee: ExprId, cases: &Vec<Case>, expr_id: ExprId)
        ensures
            final(store)@ == inference::check_cases(
                self@,
                old(store)@,
                scrutinee,
                cases@,
                0,
                expr_id,
            ),
    {
        let mut i: usize = 0;
        while i < cases.len()
            invariant
                i <= cases.len(),
                inference::check_cases(self@, old(store)@, scrutinee, cases@, 0, expr_id)
                    == inference::check_cases(self@, store@, scrutinee, cases@, i as int, expr_id),
            decreases cases.len() - i,
        {
            self.match_expr_with_pattern(store, scrutinee, cases[i].pattern_id);
            self.match_exprs(store, expr_id, cases[i].body);
            i = i + 1;
        }
    }

    /// The type of a function at a call.
    fn function_type_at_call(&self, store: &mut TypeStore, id: FunctionId) -> (r: Option<Type>)
        ensures
            match inference::function_type_at_call(self@, old(store)@, id) {
                Some((ty, next)) => r.is_some() && r.unwrap()@ == ty && final(store)@ == (StoreModel {
                    next,
                    ..old(store)@
                }),
                None => r.is_none() && final(store)@ == old(store)@,
            },
    {
        let function_type = match store.function_type_info_store.find(&id) {
            Some(info) => info.function_type.copy(),
            None => {
                return None;
            },
        };
        if group_contains(&self.group.items, id) {
            Some(function_type)
        } else {
            fresh_type(&function_type, &mut store.type_var_generator)
        }
    }

    /// The type of a class member at a call.
    fn member_type_at_call(&self, store: &mut TypeStore, id: ClassMemberId) -> (r: Option<Type>)
        ensures
            match inference::member_type_at_call(self@, old(store)@, id) {
                Some((ty, next)) => r.is_some() && r.unwrap()@ == ty && final(store)@ == (StoreModel {
                    next,
                    ..old(store)@
                }),
                None => r.is_none() && final(store)@ == old(store)@,
            },
    {
        match self.member_types.get(id.id) {
            Some(types) => fresh_type(&types.0, &mut store.type_var_generator),
            None => None,
        }
    }

    /// The obligations of a reference to an argument.
    fn visit_arg_ref(&self, store: &mut TypeStore, arg_ref: &crate::ir::expr::FunctionArgumentRef, expr_id: ExprId)
        ensures
            final(store)@ == inference::visit_arg_ref(self@, old(store)@, *arg_ref, expr_id),
    {
        let function = match self.program.functions.get(arg_ref.id.id) {
            Some(f) => f,
            None => {
                self.invalid_expr(store, expr_id);
                return ;
            },
        };
        let arg_type = match store.function_type_info_store.find(&arg_ref.id) {
            Some(info) => {
                if arg_ref.captured {
                    if arg_ref.index < info.args.len() {
                        Some(info.args[arg_ref.index].copy())
                    } else {
                        None
                    }
                } else {
                    if arg_ref.index < info.args.len() && function.implicit_arg_count
                        < info.args.len() - arg_ref.index {
                        Some(info.args[function.implicit_arg_count + arg_ref.index].copy())
                    } else {
                        None
                    }
                }
            },
            None => None,
        };
        match arg_type {
            Some(ty) => {
                self.match_expr_with(store, expr_id, &ty);
            },
            None => {
                self.invalid_expr(store, expr_id);
            },
        }
    }

    /// The obligations of a call of a function or of a class member.
    fn visit_call(&self, store: &mut TypeStore, function_type: Option<Type>, args: &Vec<ExprId>, expr_id: ExprId)
        ensures
            function_type.is_some() ==> final(store)@ == inference::check_call(
                self@,
                old(store)@,
                function_type.unwrap()@,
                args@,
                expr_id,
            ),
            function_type.is_none() ==> final(store)@ == old(store)@.error(
                TypecheckErrorModel::InvalidProgram(inference::expr_place(self@, expr_id)),
            ),
    {
        match function_type {
            Some(function_type) => {
                self.check_function_call(store, &function_type, args, expr_id);
            },
            None => {
                self.invalid_expr(store, expr_id);
            },
        }
    }

    /// The obligations of a call of the value of an expression.
    #[verifier::loop_isolation(false)]
    fn visit_dynamic_call(&self, store: &mut TypeStore, function_expr: ExprId, args: &Vec<ExprId>, expr_id: ExprId)
        ensures
            final(store)@ == inference::visit_dynamic_call(
                self@,
                old(store)@,
                function_expr,
                args@,
                expr_id,
            ),
    {
        let place = self.expr_place(expr_id);
        let start = store.type_var_generator.peek();
        if args.len() >= usize::MAX - start {
            self.invalid_expr(store, expr_id);
            return ;
        }
        let found = match store.get_expr_type(&function_expr) {
            Some(t) => t.copy(),
            None => {
                self.invalid_expr(store, expr_id);
                return ;
            },
        };
        let mut vars: Vec<Type> = Vec::new();
        let mut i: usize = 0;
        while i < args.len()
            invariant
                i <= args.len(),
                start + args.len() < usize::MAX,
                store@ == (StoreModel { next: (start + i) as nat, ..old(store)@ }),
                vars.len() == i,
                forall|k: int|
                    0 <= k < i ==> (#[trigger] vars@[k])@ == TypeModel::Var(
                        (start + k) as usize,
                        Seq::empty(),
                    ),
            decreases args.len() - i,
        {
            let index = store.type_var_generator.get_new_index().unwrap();
            vars.push(Type::Var(index, Vec::new()));
            i = i + 1;
        }
        let index = store.type_var_generator.get_new_index().unwrap();
        let result = Type::Var(index, Vec::new());
        assert(type_models(vars@) =~= fresh_vars(start as nat, args@.len()));
        let general = function_type_from(&vars, &result);
        match store.try_unify(&found, &general, place, &self.group.items) {
            Ok(sub) => {
                let function_type = sub.apply(&general);
                self.check_function_call(store, &function_type, args, expr_id);
            },
            Err(_) => {
                self.argument_mismatch(store, &found, args, expr_id);
            },
        }
    }

    /// The obligations of a list.
    fn visit_list(&self, store: &mut TypeStore, items: &Vec<ExprId>, expr_id: ExprId)
        ensures
            final(store)@ == inference::visit_list(self@, old(store)@, items@, expr_id),
    {
        let index = store.type_var_generator.peek();
        if index >= usize::MAX {
            self.invalid_expr(store, expr_id);
            return ;
        }
        let item_type = Type::Var(index, Vec::new());
        match self.program.find_list_type(item_type.copy()) {
            None => {
                self.invalid_expr(store, expr_id);
            },
            Some(list_type) => {
                store.type_var_generator.get_new_index();
                let sub = self.match_expr_with(store, expr_id, &list_type);
                let current = applied(&sub, &item_type);
                self.unify_item_types(store, current, items);
            },
        }
    }

    /// The obligations of an access to an item of a tuple.
    fn visit_tuple_field_access(&self, store: &mut TypeStore, index: usize, tuple: ExprId, expr_id: ExprId)
        ensures
            final(store)@ == inference::visit_tuple_field_access(
                self@,
                old(store)@,
                index,
                tuple,
                expr_id,
            ),
    {
        let place = self.expr_place(expr_id);
        let tuple_type = match store.get_expr_type(&tuple) {
            Some(t) => Some(t.copy()),
            None => None,
        };
        let expr_type = match store.get_expr_type(&expr_id) {
            Some(t) => Some(t.copy()),
            None => None,
        };
        match (tuple_type, expr_type) {
            (Some(tuple_type), Some(expr_type)) => {
                match &tuple_type {
                    Type::Tuple(items) => {
                        assert(tuple_type@ matches TypeModel::Tuple(ms) ==> ms == type_models(items@));
                        if index < items.len() {
                            assert(type_models(items@)[index as int] == items@[index as int]@);
                            self.match_expr_with(store, expr_id, &items[index]);
                            return ;
                        }
                    },
                    _ => {},
                }
                store.add_error(
                    TypecheckError::TypeMismatch(place, at_least(index), tuple_type.as_string()),
                );
            },
            _ => {
                self.invalid_expr(store, expr_id);
            },
        }
    }

    /// The obligations of an access to the field that `info` names.
    fn chosen_field(&self, store: &mut TypeStore, info: FieldAccessInfo, receiver: ExprId, expr_id: ExprId)
        ensures
            final(store)@ == inference::chosen_field(self@, old(store)@, info, receiver, expr_id),
    {
        let place = self.expr_place(expr_id);
        match self.fresh_record(store, info.record_id) {
            None => {
                store.add_error(TypecheckError::InvalidProgram(place));
            },
            Some((record_type, fields)) => {
                if info.index >= fields.len() {
                    store.add_error(TypecheckError::InvalidProgram(place));
                } else {
                    assert(type_models(fields@)[info.index as int] == fields@[info.index as int]@);
                    let sub = self.match_expr_with(store, receiver, &record_type);
                    let field_type = applied(&sub, &fields[info.index]);
                    self.match_expr_with(store, expr_id, &field_type);
                }
            },
        }
    }

    /// The obligations of an access to a field.
    #[verifier::loop_isolation(false)]
    fn visit_field_access(&self, store: &mut TypeStore, infos: &Vec<FieldAccessInfo>, receiver: ExprId, expr_id: ExprId)
        ensures
            final(store)@ == inference::visit_field_access(
                self@,
                old(store)@,
                infos@,
                receiver,
                expr_id,
            ),
    {
        let place = self.expr_place(expr_id);
        let receiver_type = match store.get_expr_type(&receiver) {
            Some(t) => Some(t.copy()),
            None => None,
        };
        let expr_type = match store.get_expr_type(&expr_id) {
            Some(t) => Some(t.copy()),
            None => None,
        };
        match (receiver_type, expr_type) {
            (Some(receiver_type), Some(expr_type)) => {
                let found = self.field_candidates(store, &receiver_type, infos);
                if found.len() == 0 {
                    let names = self.record_names(infos);
                    store.add_error(
                        TypecheckError::TypeMismatch(place, joined(&names), receiver_type.as_string()),
                    );
                } else if found.len() > 1 {
                    let mut records: Vec<String> = Vec::new();
                    let mut k: usize = 0;
                    while k < found.len()
                        invariant
                            k <= found.len(),
                            records.len() == k,
                            forall|j: int|
                                0 <= j < found@.len() ==> (#[trigger] found@[j]) < infos@.len(),
                            forall|j: int|
                                0 <= j < k ==> (#[trigger] records@[j])@ == inference::typedef_name(
                                    self@.program,
                                    infos@[found@[j] as int].record_id,
                                ),
                        decreases found.len() - k,
                    {
                        records.push(self.typedef_name(infos[found[k]].record_id));
                        k = k + 1;
                    }
                    assert(name_views(records@) =~= inference::candidate_records(
                        self@.program,
                        infos@,
                        Seq::new(found@.len(), |i: int| found@[i] as int),
                    ));
                    store.add_error(TypecheckError::AmbiguousFieldAccess(place, records));
                } else {
                    self.chosen_field(store, infos[found[0]], receiver, expr_id);
                }
            },
            _ => {
                self.invalid_expr(store, expr_id);
            },
        }
    }

    /// The obligations of a record expression.
    fn visit_record_initialization(
        &self,
        store: &mut TypeStore,
        type_id: TypeDefId,
        items: &Vec<RecordFieldValueExpr>,
        expr_id: ExprId,
    )
        ensures
            final(store)@ == inference::visit_record_initialization(
                self@,
                old(store)@,
                type_id,
                items@,
                expr_id,
            ),
    {
        match self.fresh_record(store, type_id) {
            None => {
                self.invalid_expr(store, expr_id);
            },
            Some((record_type, fields)) => {
                let sub = self.match_expr_with(store, expr_id, &record_type);
                let current = applied_types(&sub, &fields);
                self.check_record_items(store, current, items, expr_id);
            },
        }
    }

    /// The obligations of a record update.
    #[verifier::loop_isolation(false)]
    fn visit_record_update(
        &self,
        store: &mut TypeStore,
        record_expr: ExprId,
        updates: &Vec<RecordUpdateInfo>,
        expr_id: ExprId,
    )
        ensures
            final(store)@ == inference::visit_record_update(
                self@,
                old(store)@,
                record_expr,
                updates@,
                expr_id,
            ),
    {
        let place = self.expr_place(expr_id);
        let record_type = match store.get_expr_type(&record_expr) {
            Some(t) => Some(t.copy()),
            None => None,
        };
        let expr_type = match store.get_expr_type(&expr_id) {
            Some(t) => Some(t.copy()),
            None => None,
        };
        match (record_type, expr_type) {
            (Some(found), Some(expr_type)) => {
                let id = match &found {
                    Type::Named(_, id, _) => Some(*id),
                    _ => None,
                };
                match id {
                    Some(id) => {
                        let mut i: usize = 0;
                        while i < updates.len()
                            invariant
                                i <= updates.len(),
                                inference::update_for(updates@, id, 0) == inference::update_for(
                                    updates@,
                                    id,
                                    i as int,
                                ),
                            decreases updates.len() - i,
                        {
                            if updates[i].record_id.id == id.id {
                                break ;
                            }
                            i = i + 1;
                        }
                        if i >= updates.len() {
                            let names = self.update_names(updates);
                            store.add_error(
                                TypecheckError::TypeMismatch(place, joined(&names), found.as_string()),
                            );
                            return ;
                        }
                        match self.fresh_record(store, id) {
                            None => {
                                self.invalid_expr(store, expr_id);
                            },
                            Some((fresh, fields)) => {
                                let sub = self.match_expr_with(store, record_expr, &fresh);
                                let current = applied_types(&sub, &fields);
                                self.check_record_items(store, current, &updates[i].items, expr_id);
                                self.match_exprs(store, record_expr, expr_id);
                            },
                        }
                    },
                    None => {
                        let names = self.update_names(updates);
                        store.add_error(
                            TypecheckError::TypeMismatch(place, joined(&names), found.as_string()),
                        );
                    },
                }
            },
            _ => {
                self.invalid_expr(store, expr_id);
            },
        }
    }

    /// The obligations of a format.
    fn visit_formatter(&self, store: &mut TypeStore, fmt: &String, args: &Vec<ExprId>, expr_id: ExprId)
        ensures
            final(store)@ == inference::visit_formatter(self@, old(store)@, fmt@, args@, expr_id),
    {
        let place = self.expr_place(expr_id);
        let pieces = split_format(fmt.as_str());
        assert(piece_views(pieces@).len() == pieces@.len());
        assert(piece_views(pieces@) == crate::interpreter::semantics::format_pieces(fmt@, 0, 0));
        assert(crate::interpreter::semantics::format_pieces(fmt@, 0, 0).len() == pieces@.len());
        let count = pieces.len();
        let wanted = args.len();
        if wanted == usize::MAX {
            store.add_error(TypecheckError::InvalidFormatString(place));
        } else if count != wanted + 1 {
            store.add_error(TypecheckError::InvalidFormatString(place));
        }
    }

    /// Generates and solves the obligations of one expression.
    pub fn visit_expr(&self, store: &mut TypeStore, expr_id: ExprId)
        ensures
            final(store)@ == inference::visit_expr(self@, old(store)@, expr_id),
    {
        let expr = match self.program.exprs.get(expr_id.id) {
            Some(info) => &info.item,
            None => {
                self.invalid_expr(store, expr_id);
                return ;
            },
        };
        match expr {
            Expr::IntegerLiteral(_) => {
                self.match_expr_named(store, INT_MODULE_NAME, INT_TYPE_NAME, expr_id);
            },
            Expr::FloatLiteral(_) => {
                self.match_expr_named(store, FLOAT_MODULE_NAME, FLOAT_TYPE_NAME, expr_id);
            },
            Expr::BoolLiteral(_) => {
                self.match_expr_named(store, BOOL_MODULE_NAME, BOOL_TYPE_NAME, expr_id);
            },
            Expr::StringLiteral(_) => {
                self.match_expr_named(store, STRING_MODULE_NAME, STRING_TYPE_NAME, expr_id);
            },
            Expr::ArgRef(arg_ref) => {
                self.visit_arg_ref(store, arg_ref, expr_id);
            },
            Expr::StaticFunctionCall(function_id, args) => {
                let function_type = self.function_type_at_call(store, *function_id);
                self.visit_call(store, function_type, args, expr_id);
            },
            Expr::ClassFunctionCall(member_id, args) => {
                let function_type = self.member_type_at_call(store, *member_id);
                self.visit_call(store, function_type, args, expr_id);
            },
            Expr::DynamicFunctionCall(function_expr, args) => {
                self.visit_dynamic_call(store, *function_expr, args, expr_id);
            },
            Expr::If(cond, true_branch, false_branch) => {
                self.match_expr_named(store, BOOL_MODULE_NAME, BOOL_TYPE_NAME, *cond);
                self.match_exprs(store, *true_branch, *false_branch);
                self.match_exprs(store, expr_id, *true_branch);
            },
            Expr::Tuple(items) => {
                let types = Self::types_of(store, items);
                self.match_expr_with(store, expr_id, &Type::Tuple(types));
            },
            Expr::List(items) => {
                self.visit_list(store, items, expr_id);
            },
            Expr::TupleFieldAccess(index, tuple) => {
                self.visit_tuple_field_access(store, *index, *tuple, expr_id);
            },
            Expr::FieldAccess(infos, receiver) => {
                self.visit_field_access(store, infos, *receiver, expr_id);
            },
            Expr::RecordInitialization(type_id, items) => {
                self.visit_record_initialization(store, *type_id, items, expr_id);
            },
            Expr::RecordUpdate(record_expr, updates) => {
                self.visit_record_update(store, *record_expr, updates, expr_id);
            },
            Expr::Do(items) => {
                if items.len() == 0 {
                    let none: Vec<Type> = Vec::new();
                    assert(type_models(none@) =~= Seq::<TypeModel>::empty());
                    self.match_expr_with(store, expr_id, &Type::Tuple(none));
                } else {
                    self.match_exprs(store, items[items.len() - 1], expr_id);
                }
            },
            Expr::Bind(pattern_id, rhs) => {
                self.match_expr_with_pattern(store, *rhs, *pattern_id);
                let none: Vec<Type> = Vec::new();
                assert(type_models(none@) =~= Seq::<TypeModel>::empty());
                self.match_expr_with(store, expr_id, &Type::Tuple(none));
            },
            Expr::ExprValue(_, pattern_id) => {
                self.match_expr_with_pattern(store, expr_id, *pattern_id);
            },
            Expr::CaseOf(scrutinee, cases) => {
                self.check_cases(store, *scrutinee, cases, expr_id);
            },
            Expr::Formatter(fmt, args) => {
                self.visit_formatter(store, fmt, args, expr_id);
            },
        }
    }

    /// The obligations of a pattern of a data type with parts.
    fn visit_data_pattern(
        &self,
        store: &mut TypeStore,
        fresh: Option<(Type, Vec<Type>)>,
        items: &Vec<PatternId>,
        pattern_id: PatternId,
        wrong_count: TypecheckError,
    )
        ensures
            fresh.is_some() ==> final(store)@ == inference::visit_data_pattern(
                self@,
                old(store)@,
                Some((fresh.unwrap().0@, type_models(fresh.unwrap().1@), old(store)@.next)),
                items@,
                pattern_id,
                wrong_count@,
            ),
            fresh.is_none() ==> final(store)@ == old(store)@.error(
                TypecheckErrorModel::InvalidProgram(inference::pattern_place(self@, pattern_id)),
            ),
    {
        match fresh {
            None => {
                self.invalid_pattern(store, pattern_id);
            },
            Some((own, parts)) => {
                let sub = self.match_pattern_with(store, pattern_id, &own);
                if parts.len() != items.len() {
                    store.add_error(wrong_count);
                } else {
                    let current = applied_types(&sub, &parts);
                    self.unify_parts(store, current, items);
                }
            },
        }
    }

    /// Unifies the type of a pattern with that of the pattern inside it.
    fn unify_with_inner(&self, store: &mut TypeStore, inner: PatternId, pattern_id: PatternId)
        ensures
            final(store)@ == inference::unify_with_inner(self@, old(store)@, inner, pattern_id),
    {
        let inner_type = match store.get_pattern_type(&inner) {
            Some(t) => Some(t.copy()),
            None => None,
        };
        match inner_type {
            Some(ty) => {
                self.match_pattern_with(store, pattern_id, &ty);
            },
            None => {
                self.invalid_pattern(store, pattern_id);
            },
        }
    }

    /// The obligations of a pattern with a type signature.
    fn visit_typed_pattern(
        &self,
        store: &mut TypeStore,
        inner: PatternId,
        signature: &crate::ir::type_signature::TypeSignatureId,
        pattern_id: PatternId,
    )
        ensures
            final(store)@ == inference::visit_typed_pattern(
                self@,
                old(store)@,
                inner,
                *signature,
                pattern_id,
            ),
    {
        let place = self.pattern_place(pattern_id);
        self.unify_with_inner(store, inner, pattern_id);
        let saved = store.type_var_generator.copy();
        let mut arg_map: Vec<(usize, usize)> = Vec::new();
        match process_type_signature(
            signature,
            self.program,
            &mut arg_map,
            &mut store.type_var_generator,
            self.depth_limit,
        ) {
            Some(ty) => {
                self.match_pattern_with(store, inner, &ty);
            },
            None => {
                store.type_var_generator = saved;
                store.add_error(TypecheckError::InvalidProgram(place));
            },
        }
    }

    /// Generates and solves the obligations of one pattern.
    pub fn visit_pattern(&self, store: &mut TypeStore, pattern_id: PatternId)
        ensures
            final(store)@ == inference::visit_pattern(self@, old(store)@, pattern_id),
    {
        let pattern = match self.program.patterns.get(pattern_id.id) {
            Some(info) => &info.item,
            None => {
                self.invalid_pattern(store, pattern_id);
                return ;
            },
        };
        let place = self.pattern_place(pattern_id);
        match pattern {
            Pattern::Binding(_) => {},
            Pattern::Wildcard => {},
            Pattern::IntegerLiteral(_) => {
                self.match_pattern_named(store, INT_MODULE_NAME, INT_TYPE_NAME, pattern_id);
            },
            Pattern::FloatLiteral(_) => {
                self.match_pattern_named(store, FLOAT_MODULE_NAME, FLOAT_TYPE_NAME, pattern_id);
            },
            Pattern::StringLiteral(_) => {
                self.match_pattern_named(store, STRING_MODULE_NAME, STRING_TYPE_NAME, pattern_id);
            },
            Pattern::BoolLiteral(_) => {
                self.match_pattern_named(store, BOOL_MODULE_NAME, BOOL_TYPE_NAME, pattern_id);
            },
            Pattern::Tuple(items) => {
                let types = Self::pattern_types_of(store, items);
                self.match_pattern_with(store, pattern_id, &Type::Tuple(types));
            },
            Pattern::Record(type_id, items) => {
                let fresh = self.fresh_record(store, *type_id);
                let count = match &fresh {
                    Some((_, parts)) => parts.len(),
                    None => 0,
                };
                self.visit_data_pattern(
                    store,
                    fresh,
                    items,
                    pattern_id,
                    TypecheckError::InvalidRecordPattern(
                        place,
                        self.typedef_name(*type_id),
                        count,
                        items.len(),
                    ),
                );
            },
            Pattern::Variant(type_id, index, items) => {
                let fresh = self.fresh_variant(store, *type_id, *index);
                let count = match &fresh {
                    Some((_, parts)) => parts.len(),
                    None => 0,
                };
                self.visit_data_pattern(
                    store,
                    fresh,
                    items,
                    pattern_id,
                    TypecheckError::InvalidVariantPattern(
                        place,
                        self.variant_name(*type_id, *index),
                        count,
                        items.len(),
                    ),
                );
            },
            Pattern::Guarded(inner, guard) => {
                self.unify_with_inner(store, *inner, pattern_id);
                self.match_expr_named(store, BOOL_MODULE_NAME, BOOL_TYPE_NAME, *guard);
            },
            Pattern::Typed(inner, signature) => {
                self.visit_typed_pattern(store, *inner, signature, pattern_id);
            },
        }
    }

    /// Gives an expression that has no type yet a fresh variable for its type.
    fn create_type_var_for_expr(&self, store: &mut TypeStore, expr_id: ExprId)
        ensures
            final(store)@ == inference::create_expr_var(self@, old(store)@, expr_id),
    {
        if store.get_expr_type(&expr_id).is_some() {
            return ;
        }
        if expr_id.id >= usize::MAX {
            self.invalid_expr(store, expr_id);
            return ;
        }
        match store.type_var_generator.get_new_index() {
            Some(index) => {
                store.set_expr_type(expr_id, Type::Var(index, Vec::new()));
            },
            None => {
                self.invalid_expr(store, expr_id);
            },
        }
    }

    /// Gives a pattern that has no type yet a fresh variable for its type.
    fn create_type_var_for_pattern(&self, store: &mut TypeStore, pattern_id: PatternId)
        ensures
            final(store)@ == inference::create_pattern_var(self@, old(store)@, pattern_id),
    {
        if store.get_pattern_type(&pattern_id).is_some() {
            return ;
        }
        if pattern_id.id >= usize::MAX {
            self.invalid_pattern(store, pattern_id);
            return ;
        }
        match store.type_var_generator.get_new_index() {
            Some(index) => {
                store.set_pattern_type(pattern_id, Type::Var(index, Vec::new()));
            },
            None => {
                self.invalid_pattern(store, pattern_id);
            },
        }
    }

    /// Visits an expression and all that it holds: first what it holds, in
    /// source order, then the expression itself.
    pub fn walk_expr(&self, pass: Pass, store: &mut TypeStore, expr_id: ExprId, depth: usize)
        ensures
            final(store)@ == inference::walk_expr(self@, pass, old(store)@, expr_id, depth as nat),
        decreases depth, 0nat, 0nat,
    {
        if depth == 0 {
            self.invalid_expr(store, expr_id);
            return ;
        }
        let expr = match self.program.exprs.get(expr_id.id) {
            Some(info) => &info.item,
            None => {
                self.invalid_expr(store, expr_id);
                return ;
            },
        };
        let inner = depth - 1;
        match expr {
            Expr::StaticFunctionCall(_, args) => {
                self.walk_exprs(pass, store, args, inner);
            },
            Expr::ClassFunctionCall(_, args) => {
                self.walk_exprs(pass, store, args, inner);
            },
            Expr::DynamicFunctionCall(function_expr, args) => {
                self.walk_expr(pass, store, *function_expr, inner);
                self.walk_exprs(pass, store, args, inner);
            },
            Expr::If(cond, true_branch, false_branch) => {
                self.walk_expr(pass, store, *cond, inner);
                self.walk_expr(pass, store, *true_branch, inner);
                self.walk_expr(pass, store, *false_branch, inner);
            },
            Expr::Tuple(items) => {
                self.walk_exprs(pass, store, items, inner);
            },
            Expr::List(items) => {
                self.walk_exprs(pass, store, items, inner);
            },
            Expr::Do(items) => {
                self.walk_exprs(pass, store, items, inner);
            },
            Expr::Bind(pattern_id, rhs) => {
                self.walk_expr(pass, store, *rhs, inner);
                self.walk_pattern(pass, store, *pattern_id, inner);
            },
            Expr::FieldAccess(_, receiver) => {
                self.walk_expr(pass, store, *receiver, inner);
            },
            Expr::TupleFieldAccess(_, tuple) => {
                self.walk_expr(pass, store, *tuple, inner);
            },
            Expr::Formatter(_, args) => {
                self.walk_exprs(pass, store, args, inner);
            },
            Expr::CaseOf(scrutinee, cases) => {
                self.walk_expr(pass, store, *scrutinee, inner);
                self.walk_cases(pass, store, cases, inner);
            },
            Expr::RecordInitialization(_, items) => {
                self.walk_items(pass, store, items, inner);
            },
            Expr::RecordUpdate(record_expr, updates) => {
                self.walk_expr(pass, store, *record_expr, inner);
                self.walk_updates(pass, store, updates, inner);
            },
            _ => {},
        }
        match pass {
            Pass::Create => {
                self.create_type_var_for_expr(store, expr_id);
            },
            Pass::Check => {
                self.visit_expr(store, expr_id);
            },
        }
    }

    /// Walks the expressions of a list, in order.
    #[verifier::loop_isolation(false)]
    fn walk_exprs(&self, pass: Pass, store: &mut TypeStore, ids: &Vec<ExprId>, depth: usize)
        ensures
            final(store)@ == inference::walk_exprs(self@, pass, old(store)@, ids@, 0, depth as nat),
        decreases depth, 1nat, ids.len(),
    {
        let mut i: usize = 0;
        while i < ids.len()
            invariant
                i <= ids.len(),
                inference::walk_exprs(self@, pass, old(store)@, ids@, 0, depth as nat)
                    == inference::walk_exprs(self@, pass, store@, ids@, i as int, depth as nat),
            decreases ids.len() - i,
        {
            self.walk_expr(pass, store, ids[i], depth);
            i = i + 1;
        }
    }

    /// Walks the expressions of the items of a record expression, in order.
    #[verifier::loop_isolation(false)]
    fn walk_items(&self, pass: Pass, store: &mut TypeStore, items: &Vec<RecordFieldValueExpr>, depth: usize)
        ensures
            final(store)@ == inference::walk_items(self@, pass, old(store)@, items@, 0, depth as nat),
        decreases depth, 1nat, items.len(),
    {
        let mut i: usize = 0;
        while i < items.len()
            invariant
                i <= items.len(),
                inference::walk_items(self@, pass, old(store)@, items@, 0, depth as nat)
                    == inference::walk_items(self@, pass, store@, items@, i as int, depth as nat),
            decreases items.len() - i,
        {
            self.walk_expr(pass, store, items[i].expr_id, depth);
            i = i + 1;
        }
    }

    /// Walks the items of the updates of a record update, in order.
    #[verifier::loop_isolation(false)]
    fn walk_updates(&self, pass: Pass, store: &mut TypeStore, updates: &Vec<RecordUpdateInfo>, depth: usize)
        ensures
            final(store)@ == inference::walk_updates(
                self@,
                pass,
                old(store)@,
                updates@,
                0,
                depth as nat,
            ),
        decreases depth, 2nat, updates.len(),
    {
        let mut i: usize = 0;
        while i < updates.len()
            invariant
                i <= updates.len(),
                inference::walk_updates(self@, pass, old(store)@, updates@, 0, depth as nat)
                    == inference::walk_updates(self@, pass, store@, updates@, i as int, depth as nat),
            decreases updates.len() - i,
        {
            self.walk_items(pass, store, &updates[i].items, depth);
            i = i + 1;
        }
    }

    /// Walks the cases of a case expression: of each first the pattern,
    /// then the body.
    #[verifier::loop_isolation(false)]
    fn walk_cases(&self, pass: Pass, store: &mut TypeStore, cases: &Vec<Case>, depth: usize)
        ensures
            final(store)@ == inference::walk_cases(self@, pass, old(store)@, cases@, 0, depth as nat),
        decreases depth, 1nat, cases.len(),
    {
        let mut i: usize = 0;
        while i < cases.len()
            invariant
                i <= cases.len(),
                inference::walk_cases(self@, pass, old(store)@, cases@, 0, depth as nat)
                    == inference::walk_cases(self@, pass, store@, cases@, i as int, depth as nat),
            decreases cases.len() - i,
        {
            self.walk_pattern(pass, store, cases[i].pattern_id, depth);
            self.walk_expr(pass, store, cases[i].body, depth);
            i = i + 1;
        }
    }

    /// Visits a pattern and all that it holds: first what it holds, then
    /// the pattern itself.
    pub fn walk_pattern(&self, pass: Pass, store: &mut TypeStore, pattern_id: PatternId, depth: usize)
        ensures
            final(store)@ == inference::walk_pattern(
                self@,
                pass,
                old(store)@,
                pattern_id,
                depth as nat,
            ),
        decreases depth, 0nat, 0nat,
    {
        if depth == 0 {
            self.invalid_pattern(store, pattern_id);
            return ;
        }
        let pattern = match self.program.patterns.get(pattern_id.id) {
            Some(info) => &info.item,
            None => {
                self.invalid_pattern(store, pattern_id);
                return ;
            },
        };
        let inner = depth - 1;
        match pattern {
            Pattern::Tuple(items) => {
                self.walk_patterns(pass, store, items, inner);
            },
            Pattern::Record(_, items) => {
                self.walk_patterns(pass, store, items, inner);
            },
            Pattern::Variant(_, _, items) => {
                self.walk_patterns(pass, store, items, inner);
            },
            Pattern::Guarded(inner_id, guard) => {
                self.walk_pattern(pass, store, *inner_id, inner);
                self.walk_expr(pass, store, *guard, inner);
            },
            Pattern::Typed(inner_id, _) => {
                self.walk_pattern(pass, store, *inner_id, inner);
            },
            _ => {},
        }
        match pass {
            Pass::Create => {
                self.create_type_var_for_pattern(store, pattern_id);
            },
            Pass::Check => {
                self.visit_pattern(store, pattern_id);
            },
        }
    }

    /// Walks the patterns of a list, in order.
    #[verifier::loop_isolation(false)]
    fn walk_patterns(&self, pass: Pass, store: &mut TypeStore, ids: &Vec<PatternId>, depth: usize)
        ensures
            final(store)@ == inference::walk_patterns(
                self@,
                pass,
                old(store)@,
                ids@,
                0,
                depth as nat,
            ),
        decreases depth, 1nat, ids.len(),
    {
        let mut i: usize = 0;
        while i < ids.len()
            invariant
                i <= ids.len(),
                inference::walk_patterns(self@, pass, old(store)@, ids@, 0, depth as nat)
                    == inference::walk_patterns(self@, pass, store@, ids@, i as int, depth as nat),
            decreases ids.len() - i,
        {
            self.walk_pattern(pass, store, ids[i], depth);
            i = i + 1;
        }
    }

    /// Infers one function of the group.
    pub fn process_function(&self, store: &mut TypeStore, function_id: &FunctionId)
        ensures
            final(store)@ == inference::process_function(self@, old(store)@, *function_id),
    {
        let body = match store.function_type_info_store.find(function_id) {
            Some(info) => info.body,
            None => {
                store.add_error(TypecheckError::InvalidProgram(LocationId { id: 0 }));
                return ;
            },
        };
        match body {
            Some(body) => {
                self.walk_expr(Pass::Create, store, body, self.depth_limit);
                self.walk_expr(Pass::Check, store, body, self.depth_limit);
                let result = match store.function_type_info_store.find(function_id) {
                    Some(info) => Some(info.result.copy()),
                    None => None,
                };
                match result {
                    Some(result) => {
                        self.match_expr_with(store, body, &result);
                    },
                    None => {},
                }
            },
            None => {},
        }
    }

    /// Infers the functions of the group, in order.
    #[verifier::loop_isolation(false)]
    pub fn process_dep_group(&self, store: &mut TypeStore)
        ensures
            final(store)@ == inference::process_group(self@, old(store)@, 0),
    {
        let mut i: usize = 0;
        while i < self.group.items.len()
            invariant
                i <= self.group.items.len(),
                inference::process_group(self@, old(store)@, 0) == inference::process_group(
                    self@,
                    store@,
                    i as int,
                ),
            decreases self.group.items.len() - i,
        {
            self.process_function(store, &self.group.items[i]);
            i = i + 1;
        }
    }
}

} // verus!
