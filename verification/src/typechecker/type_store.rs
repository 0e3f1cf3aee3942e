//! The state of inference: the types of expressions, patterns and functions,
//! the obligations left open, and the errors found.

use crate::ir::expr::ExprId;
use crate::ir::function::FunctionId;
use crate::ir::pattern::PatternId;
use crate::ir::type_var_generator::TypeVarGenerator;
use crate::ir::types::Type;
use crate::ir::types::TypeModel;
use crate::ir::unifier::empty_substitution;
use crate::ir::unifier::unify;
use crate::ir::unifier::Constraint;
use crate::ir::unifier::ConstraintModel;
use crate::ir::unifier::Substitution;
use crate::ir::unifier::SubstitutionModel;
use crate::ir::unifier::Unifier;
use crate::ir::unifier::UnifyError;
use crate::ir::unifier::UnifyErrorModel;
use crate::location_info::LocationId;
use crate::util::table_get;
use crate::util::table_insert;
use crate::typechecker::common::FunctionTypeInfo;
use crate::typechecker::common::FunctionTypeInfoModel;
use crate::typechecker::common::FunctionTypeInfoStore;
use crate::typechecker::error::error_models;
use crate::typechecker::error::push_error;
use crate::typechecker::error::TypecheckError;
use crate::typechecker::error::TypecheckErrorModel;
use crate::typechecker::type_text::type_text;
use vstd::prelude::*;

verus! {

/// The models of a table of types.
pub open spec fn table_models(items: Seq<Option<Type>>) -> Seq<Option<TypeModel>> {
    Seq::new(
        items.len(),
        |i: int|
            match items[i] {
                Some(ty) => Some(ty@),
                None => None,
            },
    )
}

/// A table of types with a substitution applied to each.
pub open spec fn apply_to_table(sub: SubstitutionModel, table: Seq<Option<TypeModel>>) -> Seq<
    Option<TypeModel>,
> {
    Seq::new(
        table.len(),
        |i: int|
            match table[i] {
                Some(ty) => Some(sub.apply(ty)),
                None => None,
            },
    )
}

/// The function type information with a substitution applied to that of
/// each function of `group` from position `from` on.
pub open spec fn apply_to_group(
    sub: SubstitutionModel,
    functions: Seq<Option<FunctionTypeInfoModel>>,
    group: Seq<FunctionId>,
    from: int,
) -> Seq<Option<FunctionTypeInfoModel>>
    decreases group.len() - from,
{
    if 0 <= from < group.len() {
        let id = group[from].id;
        apply_to_group(
            sub,
            match table_get(functions, id) {
                Some(info) => functions.update(id as int, Some(info.apply(sub))),
                None => functions,
            },
            group,
            from + 1,
        )
    } else {
        functions
    }
}

/// Obligations with a substitution applied to the type of each.
pub open spec fn apply_to_deferred(sub: SubstitutionModel, deferred: Seq<(ConstraintModel, LocationId)>) -> Seq<
    (ConstraintModel, LocationId),
> {
    Seq::new(
        deferred.len(),
        |i: int|
            (
                ConstraintModel { class_id: deferred[i].0.class_id, ty: sub.apply(deferred[i].0.ty) },
                deferred[i].1,
            ),
    )
}

/// `deferred`, then the obligations of `constraints` from position `from`
/// on, each at `place`.
pub open spec fn defer_all(
    deferred: Seq<(ConstraintModel, LocationId)>,
    constraints: Seq<ConstraintModel>,
    from: int,
    place: LocationId,
) -> Seq<(ConstraintModel, LocationId)>
    decreases constraints.len() - from,
{
    if 0 <= from < constraints.len() {
        defer_all(deferred.push((constraints[from], place)), constraints, from + 1, place)
    } else {
        deferred
    }
}

/// The mathematical model of the state of inference.
pub ghost struct StoreModel {
    pub expr_types: Seq<Option<TypeModel>>,
    pub pattern_types: Seq<Option<TypeModel>>,
    pub functions: Seq<Option<FunctionTypeInfoModel>>,
    pub deferred: Seq<(ConstraintModel, LocationId)>,
    pub next: nat,
    pub errors: Seq<TypecheckErrorModel>,
}

impl StoreModel {
    /// The type of an expression.
    pub open spec fn expr_type(self, id: ExprId) -> Option<TypeModel> {
        table_get(self.expr_types, id.id)
    }

    /// The type of a pattern.
    pub open spec fn pattern_type(self, id: PatternId) -> Option<TypeModel> {
        table_get(self.pattern_types, id.id)
    }

    /// The type information of a function.
    pub open spec fn function(self, id: FunctionId) -> Option<FunctionTypeInfoModel> {
        table_get(self.functions, id.id)
    }

    /// The state with one more error.
    pub open spec fn error(self, e: TypecheckErrorModel) -> StoreModel {
        StoreModel { errors: self.errors.push(e), ..self }
    }

    /// The state with a substitution applied to every type in it: those of
    /// the expressions, the patterns, the functions of `group` and the
    /// obligations.
    pub open spec fn apply(self, sub: SubstitutionModel, group: Seq<FunctionId>) -> StoreModel {
        StoreModel {
            expr_types: apply_to_table(sub, self.expr_types),
            pattern_types: apply_to_table(sub, self.pattern_types),
            functions: apply_to_group(sub, self.functions, group, 0),
            deferred: apply_to_deferred(sub, self.deferred),
            ..self
        }
    }

    /// The state after a unification that succeeded with `sub`: the
    /// substitution is applied to every type of the state, its obligations
    /// are added to those left open, each at `place`, and the next fresh
    /// index is `next`.
    pub open spec fn adopt(
        self,
        sub: SubstitutionModel,
        next: nat,
        place: LocationId,
        group: Seq<FunctionId>,
    ) -> StoreModel {
        let applied = self.apply(sub, group);
        StoreModel {
            deferred: defer_all(applied.deferred, sub.constraints, 0, place),
            next,
            ..applied
        }
    }

    /// What unifying two types makes of the state. Where they unify, the
    /// state adopts the substitution, which is the second part of the
    /// result. Where they do not, the state has one more error: a
    /// recursive type where a variable would stand for a type that holds
    /// it, a mismatch of the two types otherwise.
    pub open spec fn unify(
        self,
        expected: TypeModel,
        found: TypeModel,
        place: LocationId,
        group: Seq<FunctionId>,
    ) -> (StoreModel, Option<SubstitutionModel>) {
        match unify(empty_substitution(), self.next, expected, found) {
            Ok((sub, next)) => (self.adopt(sub, next, place, group), Some(sub)),
            Err(e) => (
                self.error(
                    match e {
                        UnifyErrorModel::Occurs(_, _) => TypecheckErrorModel::RecursiveType(place),
                        _ => TypecheckErrorModel::TypeMismatch(
                            place,
                            type_text(expected),
                            type_text(found),
                        ),
                    },
                ),
                None,
            ),
        }
    }
}

/// The models of a list of obligations with their places.
pub open spec fn deferred_models(items: Seq<(Constraint, LocationId)>) -> Seq<
    (ConstraintModel, LocationId),
> {
    Seq::new(items.len(), |i: int| (items[i].0@, items[i].1))
}

/// The index of a type in a store of types.
#[derive(Debug, Clone, Copy, PartialEq, Eq, PartialOrd, Ord, Structural)]
pub struct TypeIndex {
    pub id: usize,
}

impl TypeIndex {
    pub fn new(id: usize) -> (r: TypeIndex)
        ensures
            r.id == id,
    {
        TypeIndex { id }
    }
}

/// The state of inference.
#[derive(Debug)]
pub struct TypeStore {
    pub expr_types: Vec<Option<Type>>,
    pub pattern_types: Vec<Option<Type>>,
    pub function_type_info_store: FunctionTypeInfoStore,
    pub deferred: Vec<(Constraint, LocationId)>,
    pub type_var_generator: TypeVarGenerator,
    pub errors: Vec<TypecheckError>,
}

impl View for TypeStore {
    type V = StoreModel;

    open spec fn view(&self) -> StoreModel {
        StoreModel {
            expr_types: table_models(self.expr_types@),
            pattern_types: table_models(self.pattern_types@),
            functions: self.function_type_info_store@,
            deferred: deferred_models(self.deferred@),
            next: self.type_var_generator.next_index(),
            errors: error_models(self.errors@),
        }
    }
}

/// Applies a substitution to each type of a table.
fn apply_table(sub: &Substitution, table: &mut Vec<Option<Type>>)
    ensures
        table_models(final(table)@) == apply_to_table(sub@, table_models(old(table)@)),
{
    let ghost before = table_models(table@);
    let mut i: usize = 0;
    while i < table.len()
        invariant
            i <= table.len(),
            table.len() == before.len(),
            forall|k: int|
                0 <= k < i ==> (#[trigger] table_models(table@)[k]) == apply_to_table(
                    sub@,
                    before,
                )[k],
            forall|k: int| i <= k < table.len() ==> (#[trigger] table_models(table@)[k]) == before[k],
        decreases table.len() - i,
    {
        let applied = match &table[i] {
            Some(ty) => Some(sub.apply(ty)),
            None => None,
        };
        let ghost previous = table_models(table@);
        assert(previous[i as int] == before[i as int]);
        let ghost applied_model = match &applied {
            Some(ty) => Some(ty@),
            None => None,
        };
        assert(applied_model == apply_to_table(sub@, before)[i as int]);
        table.set(i, applied);
        assert(table_models(table@)[i as int] == applied_model);
        assert forall|k: int| 0 <= k < table.len() && k != i implies (#[trigger] table_models(
            table@,
        )[k]) == previous[k] by {}
        i = i + 1;
    }
    assert(table_models(table@) =~= apply_to_table(sub@, before));
}

/// `table`, made long enough to hold `id`, with `id` bound to `ty`.
fn insert_type(table: &mut Vec<Option<Type>>, id: usize, ty: Type)
    requires
        id < usize::MAX,
    ensures
        table_models(final(table)@) == table_insert(table_models(old(table)@), id, ty@),
{
    let ghost start = table_models(table@);
    while table.len() < id
        invariant
            start.len() <= table.len(),
            table.len() <= id || table.len() == start.len(),
            table_models(table@) =~= start + Seq::new(
                (table.len() - start.len()) as nat,
                |i: int| None::<TypeModel>,
            ),
        decreases id - table.len(),
    {
        let ghost before = table_models(table@);
        table.push(None);
        assert(table_models(table@) =~= before.push(None));
    }
    if id < table.len() {
        table.set(id, Some(ty));
        assert(table_models(table@) =~= table_insert(start, id, ty@));
    } else {
        table.push(Some(ty));
        assert(table_models(table@) =~= table_insert(start, id, ty@));
    }
}

impl TypeStore {
    /// The state before inference: no types but those of the functions.
    pub fn new(function_type_info_store: FunctionTypeInfoStore, type_var_generator: TypeVarGenerator) -> (r:
        TypeStore)
        ensures
            r@.expr_types.len() == 0,
            r@.pattern_types.len() == 0,
            r@.functions == function_type_info_store@,
            r@.deferred.len() == 0,
            r@.next == type_var_generator.next_index(),
            r@.errors.len() == 0,
    {
        TypeStore {
            expr_types: Vec::new(),
            pattern_types: Vec::new(),
            function_type_info_store,
            deferred: Vec::new(),
            type_var_generator,
            errors: Vec::new(),
        }
    }

    /// The type of an expression, if it has one.
    pub fn get_expr_type(&self, id: &ExprId) -> (r: Option<&Type>)
        ensures
            match r {
                Some(ty) => self@.expr_type(*id) == Some(ty@),
                None => self@.expr_type(*id).is_none(),
            },
    {
        if id.id < self.expr_types.len() {
            self.expr_types[id.id].as_ref()
        } else {
            None
        }
    }

    /// The type of a pattern, if it has one.
    pub fn get_pattern_type(&self, id: &PatternId) -> (r: Option<&Type>)
        ensures
            match r {
                Some(ty) => self@.pattern_type(*id) == Some(ty@),
                None => self@.pattern_type(*id).is_none(),
            },
    {
        if id.id < self.pattern_types.len() {
            self.pattern_types[id.id].as_ref()
        } else {
            None
        }
    }

    /// Gives an expression its type.
    pub fn set_expr_type(&mut self, id: ExprId, ty: Type)
        requires
            id.id < usize::MAX,
        ensures
            final(self)@ == (StoreModel {
                expr_types: table_insert(old(self)@.expr_types, id.id, ty@),
                ..old(self)@
            }),
    {
        insert_type(&mut self.expr_types, id.id, ty);
    }

    /// Gives a pattern its type.
    pub fn set_pattern_type(&mut self, id: PatternId, ty: Type)
        requires
            id.id < usize::MAX,
        ensures
            final(self)@ == (StoreModel {
                pattern_types: table_insert(old(self)@.pattern_types, id.id, ty@),
                ..old(self)@
            }),
    {
        insert_type(&mut self.pattern_types, id.id, ty);
    }

    /// Adds an error.
    pub fn add_error(&mut self, error: TypecheckError)
        ensures
            final(self)@ == old(self)@.error(error@),
    {
        push_error(&mut self.errors, error);
    }

    /// Applies a substitution to every type of the state.
    #[verifier::loop_isolation(false)]
    pub fn apply(&mut self, sub: &Substitution, group: &Vec<FunctionId>)
        ensures
            final(self)@ == old(self)@.apply(sub@, group@),
    {
        apply_table(sub, &mut self.expr_types);
        apply_table(sub, &mut self.pattern_types);
        let mut i: usize = 0;
        while i < group.len()
            invariant
                i <= group.len(),
                apply_to_group(sub@, old(self)@.functions, group@, 0) == apply_to_group(
                    sub@,
                    self@.functions,
                    group@,
                    i as int,
                ),
                self@.expr_types == apply_to_table(sub@, old(self)@.expr_types),
                self@.pattern_types == apply_to_table(sub@, old(self)@.pattern_types),
                self@.deferred == old(self)@.deferred,
                self@.next == old(self)@.next,
                self@.errors == old(self)@.errors,
            decreases group.len() - i,
        {
            let applied = match self.function_type_info_store.find(&group[i]) {
                Some(info) => {
                    let mut copy = info.copy();
                    copy.apply(sub);
                    Some(copy)
                },
                None => None,
            };
            match applied {
                Some(info) => {
                    self.function_type_info_store.replace(&group[i], info);
                },
                None => {},
            }
            i = i + 1;
        }
        let mut deferred: Vec<(Constraint, LocationId)> = Vec::new();
        let mut j: usize = 0;
        while j < self.deferred.len()
            invariant
                j <= self.deferred.len(),
                deferred.len() == j,
                forall|k: int|
                    0 <= k < j ==> (#[trigger] deferred@[k]).0@ == (ConstraintModel {
                        class_id: self.deferred@[k].0.class_id,
                        ty: sub@.apply(self.deferred@[k].0.ty@),
                    }) && deferred@[k].1 == self.deferred@[k].1,
            decreases self.deferred.len() - j,
        {
            deferred.push(
                (
                    Constraint {
                        class_id: self.deferred[j].0.class_id,
                        ty: sub.apply(&self.deferred[j].0.ty),
                    },
                    self.deferred[j].1,
                ),
            );
            j = j + 1;
        }
        assert(deferred_models(deferred@) =~= apply_to_deferred(sub@, old(self)@.deferred));
        self.deferred = deferred;
    }

    /// Unifies two types and, where they unify, applies what makes them
    /// equal to the state and returns it. Where they do not, the state is
    /// left as it was.
    #[verifier::loop_isolation(false)]
    pub fn try_unify(&mut self, expected: &Type, found: &Type, location: LocationId, group: &Vec<FunctionId>) -> (r:
        Result<Substitution, UnifyError>)
        ensures
            match unify(empty_substitution(), old(self)@.next, expected@, found@) {
                Ok((sub, next)) => r.is_ok() && r.unwrap()@ == sub && final(self)@ == old(self)@.adopt(sub, next, location, group@),
                Err(e) => r.is_err() && r.unwrap_err()@ == e && final(self)@ == old(self)@,
            },
    {
        let mut unifier = Unifier::new(self.type_var_generator.copy());
        match unifier.unify(expected, found) {
            Ok(()) => {
                let Unifier { substitution, type_var_generator } = unifier;
                self.apply(&substitution, group);
                self.type_var_generator = type_var_generator;
                let ghost applied = self@.deferred;
                let mut i: usize = 0;
                while i < substitution.constraints.len()
                    invariant
                        i <= substitution.constraints.len(),
                        defer_all(applied, substitution@.constraints, 0, location) == defer_all(
                            self@.deferred,
                            substitution@.constraints,
                            i as int,
                            location,
                        ),
                        self@.expr_types == old(self)@.apply(substitution@, group@).expr_types,
                        self@.pattern_types == old(self)@.apply(substitution@, group@).pattern_types,
                        self@.functions == old(self)@.apply(substitution@, group@).functions,
                        self@.errors == old(self)@.errors,
                        self@.next == type_var_generator.next_index(),
                    decreases substitution.constraints.len() - i,
                {
                    let ghost before = self@.deferred;
                    self.deferred.push(
                        (
                            Constraint {
                                class_id: substitution.constraints[i].class_id,
                                ty: substitution.constraints[i].ty.copy(),
                            },
                            location,
                        ),
                    );
                    assert(self@.deferred =~= before.push(
                        (substitution@.constraints[i as int], location),
                    ));
                    i = i + 1;
                }
                Ok(substitution)
            },
            Err(e) => Err(e),
        }
    }

    /// Unifies two types and applies what makes them equal to the state.
    /// Returns the substitution where they unify; reports an error and
    /// returns nothing where they do not.
    pub fn unify(&mut self, expected: &Type, found: &Type, location: LocationId, group: &Vec<FunctionId>) -> (r:
        Option<Substitution>)
        ensures
            final(self)@ == old(self)@.unify(expected@, found@, location, group@).0,
            match r {
                Some(sub) => old(self)@.unify(expected@, found@, location, group@).1 == Some(sub@),
                None => old(self)@.unify(expected@, found@, location, group@).1.is_none(),
            },
    {
        match self.try_unify(expected, found, location, group) {
            Ok(substitution) => Some(substitution),
            Err(e) => {
                match e {
                    UnifyError::Occurs(_, _) => {
                        self.add_error(TypecheckError::RecursiveType(location));
                    },
                    _ => {
                        self.add_error(
                            TypecheckError::TypeMismatch(
                                location,
                                expected.as_string(),
                                found.as_string(),
                            ),
                        );
                    },
                }
                None
            },
        }
    }
}

} // verus!
