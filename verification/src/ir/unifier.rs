//! First-order unification of schematic types with constrained variables.

use crate::ir::class::ClassId;
use crate::ir::type_var_generator::TypeVarGenerator;
use crate::ir::types::class_ids_equal;
use crate::ir::types::contains_class_id;
use crate::ir::types::copy_class_ids;
use crate::ir::types::saturate;
use crate::ir::types::sizes;
use crate::ir::types::type_models;
use crate::ir::types::Type;
use crate::ir::types::TypeModel;
use vstd::prelude::*;

verus! {

/// An obligation that unification left open: `ty` must be an instance of
/// the class. The instance resolver discharges it.
#[derive(Debug)]
pub struct Constraint {
    pub class_id: ClassId,
    pub ty: Type,
}

/// The mathematical model of a constraint.
pub ghost struct ConstraintModel {
    pub class_id: ClassId,
    pub ty: TypeModel,
}

impl View for Constraint {
    type V = ConstraintModel;

    open spec fn view(&self) -> ConstraintModel {
        ConstraintModel { class_id: self.class_id, ty: self.ty@ }
    }
}

/// The models of a list of constraints.
pub open spec fn constraint_models(items: Seq<Constraint>) -> Seq<ConstraintModel> {
    Seq::new(items.len(), |i: int| items[i]@)
}

/// The models of a list of bindings.
pub open spec fn binding_models(items: Seq<(usize, Type)>) -> Seq<(usize, TypeModel)> {
    Seq::new(items.len(), |i: int| (items[i].0, items[i].1@))
}

/// The models of a list of pairs of types.
pub open spec fn pair_models(items: Seq<(Type, Type)>) -> Seq<(TypeModel, TypeModel)> {
    Seq::new(items.len(), |i: int| (items[i].0@, items[i].1@))
}

/// The mathematical model of a substitution: the bindings in the order they
/// were made, and the obligations left open.
pub ghost struct SubstitutionModel {
    pub bindings: Seq<(usize, TypeModel)>,
    pub constraints: Seq<ConstraintModel>,
}

impl SubstitutionModel {
    /// The substitution with one more binding.
    pub open spec fn bind(self, index: usize, ty: TypeModel) -> SubstitutionModel {
        SubstitutionModel { bindings: self.bindings.push((index, ty)), ..self }
    }

    /// The substitution with the obligation, for each class of `classes`
    /// from position `from` on, that `ty` is an instance of it.
    pub open spec fn defer(self, classes: Seq<ClassId>, from: int, ty: TypeModel) -> SubstitutionModel
        decreases classes.len() - from,
    {
        if 0 <= from < classes.len() {
            (SubstitutionModel {
                constraints: self.constraints.push(
                    ConstraintModel { class_id: classes[from], ty },
                ),
                ..self
            }).defer(classes, from + 1, ty)
        } else {
            self
        }
    }

    /// What the substitution makes of a type.
    pub open spec fn apply(self, ty: TypeModel) -> TypeModel {
        apply_bindings(self.bindings, 0, ty)
    }
}

/// What the bindings from position `from` on make of a type: each, in the
/// order they were made, puts its type in the place of its variable.
pub open spec fn apply_bindings(bindings: Seq<(usize, TypeModel)>, from: int, ty: TypeModel) -> TypeModel
    decreases bindings.len() - from,
{
    if 0 <= from < bindings.len() {
        apply_bindings(bindings, from + 1, ty.subst(bindings[from].0, bindings[from].1))
    } else {
        ty
    }
}

/// The sorted list `list` with `x` at its place, unless it is in the list.
pub open spec fn insert_sorted(list: Seq<ClassId>, x: ClassId) -> Seq<ClassId>
    decreases list.len(),
{
    if list.len() == 0 {
        seq![x]
    } else if list[0].id == x.id {
        list
    } else if list[0].id > x.id {
        seq![x] + list
    } else {
        seq![list[0]] + insert_sorted(list.drop_first(), x)
    }
}

/// `sorted` with each item of `items` from position `from` on put at its place.
pub open spec fn insert_all(items: Seq<ClassId>, from: int, sorted: Seq<ClassId>) -> Seq<ClassId>
    decreases items.len() - from,
{
    if 0 <= from < items.len() {
        insert_all(items, from + 1, insert_sorted(sorted, items[from]))
    } else {
        sorted
    }
}

/// The constraints of both lists, sorted by class id, each once.
pub open spec fn merge_constraints(a: Seq<ClassId>, b: Seq<ClassId>) -> Seq<ClassId> {
    insert_all(b, 0, insert_all(a, 0, Seq::empty()))
}

/// The first class of `wanted`, from position `from` on, that `given` lacks.
pub open spec fn first_missing(wanted: Seq<ClassId>, given: Seq<ClassId>, from: int) -> Option<ClassId>
    decreases wanted.len() - from,
{
    if 0 <= from < wanted.len() {
        if given.contains(wanted[from]) {
            first_missing(wanted, given, from + 1)
        } else {
            Some(wanted[from])
        }
    } else {
        None
    }
}

/// Why two types do not unify.
#[derive(Debug)]
pub enum UnifyError {
    /// The two types differ in their outer constructor or in their arity.
    Mismatch(Type, Type),
    /// Binding the variable would make it stand for a type that holds it.
    Occurs(usize, Type),
    /// A free variable must belong to the class, and the rigid variable it
    /// meets does not.
    ConstraintNotSatisfied(ClassId, Type),
    /// The variables were used up, or more bindings were needed than the
    /// two types have nodes.
    VariableLimit,
}

/// The mathematical model of a unification error.
pub ghost enum UnifyErrorModel {
    Mismatch(TypeModel, TypeModel),
    Occurs(usize, TypeModel),
    ConstraintNotSatisfied(ClassId, TypeModel),
    VariableLimit,
}

impl View for UnifyError {
    type V = UnifyErrorModel;

    open spec fn view(&self) -> UnifyErrorModel {
        match self {
            UnifyError::Mismatch(a, b) => UnifyErrorModel::Mismatch(a@, b@),
            UnifyError::Occurs(i, t) => UnifyErrorModel::Occurs(*i, t@),
            UnifyError::ConstraintNotSatisfied(c, t) => UnifyErrorModel::ConstraintNotSatisfied(
                *c,
                t@,
            ),
            UnifyError::VariableLimit => UnifyErrorModel::VariableLimit,
        }
    }
}

/// The number of nodes of the types of a stack of pairs.
pub open spec fn work_size(work: Seq<(TypeModel, TypeModel)>) -> nat
    decreases work.len(),
{
    if work.len() == 0 {
        0
    } else {
        work.last().0.size() + work.last().1.size() + work_size(work.drop_last())
    }
}

/// The stack `rest` with the pairs of `xs` and `ys` from position `from` on
/// pushed on it, the pair at `from` on top.
pub open spec fn stack_pairs(
    xs: Seq<TypeModel>,
    ys: Seq<TypeModel>,
    from: int,
    rest: Seq<(TypeModel, TypeModel)>,
) -> Seq<(TypeModel, TypeModel)>
    decreases xs.len() - from,
{
    if 0 <= from < xs.len() {
        stack_pairs(xs, ys, from + 1, rest).push((xs[from], ys[from]))
    } else {
        rest
    }
}

/// Pushing the pairs of two lists on a stack adds the nodes of both lists.
pub proof fn lemma_stack_pairs_size(
    xs: Seq<TypeModel>,
    ys: Seq<TypeModel>,
    from: int,
    rest: Seq<(TypeModel, TypeModel)>,
)
    requires
        0 <= from,
        xs.len() == ys.len(),
    ensures
        work_size(stack_pairs(xs, ys, from, rest)) == sizes(xs, from) + sizes(ys, from) + work_size(
            rest,
        ),
    decreases xs.len() - from,
{
    if from < xs.len() {
        lemma_stack_pairs_size(xs, ys, from + 1, rest);
        let below = stack_pairs(xs, ys, from + 1, rest);
        assert(below.push((xs[from], ys[from])).drop_last() =~= below);
    }
}

/// The stack with `replacement` in place of the free variable `index` in
/// every type.
pub open spec fn subst_work(work: Seq<(TypeModel, TypeModel)>, index: usize, replacement: TypeModel) -> Seq<
    (TypeModel, TypeModel),
> {
    Seq::new(
        work.len(),
        |i: int| (work[i].0.subst(index, replacement), work[i].1.subst(index, replacement)),
    )
}

/// Unifies the pairs of a stack, the last pair first. The stack holds types
/// to which every binding made so far was applied. The result is the
/// substitution with the bindings and obligations that unifying the pairs
/// adds, and the index of the next fresh variable.
///
/// - Two free variables: both are bound to a fresh variable that carries
///   the constraints of both, unless they are the same variable with the
///   same constraints.
/// - A free variable and a rigid one: the free one is bound to the rigid
///   one, if the rigid one carries every constraint of the free one.
/// - A free variable and another type: the variable is bound to the type,
///   unless it occurs in it; that the type belongs to the variable's
///   classes is left open as obligations.
/// - Two rigid variables unify if they are the same, in index, name and
///   constraints.
/// - Tuples, functions and named types of the same shape: their parts are
///   unified in order. Two named types have the same shape where they name
///   the same definition with as many arguments; the names they carry are
///   not compared.
pub open spec fn unify_work(
    work: Seq<(TypeModel, TypeModel)>,
    sub: SubstitutionModel,
    next: nat,
    fuel: nat,
) -> Result<(SubstitutionModel, nat), UnifyErrorModel>
    decreases fuel, work_size(work),
{
    if work.len() == 0 {
        Ok((sub, next))
    } else {
        let a = work.last().0;
        let b = work.last().1;
        let rest = work.drop_last();
        match (a, b) {
            (TypeModel::Var(i, ci), TypeModel::Var(j, cj)) => {
                if i == j && ci == cj {
                    unify_work(rest, sub, next, fuel)
                } else if fuel == 0 || next >= usize::MAX {
                    Err(UnifyErrorModel::VariableLimit)
                } else {
                    let fresh = TypeModel::Var(next as usize, merge_constraints(ci, cj));
                    unify_work(
                        subst_work(subst_work(rest, i, fresh), j, fresh),
                        sub.bind(i, fresh).bind(j, fresh),
                        next + 1,
                        (fuel - 1) as nat,
                    )
                }
            },
            (TypeModel::Var(i, c), TypeModel::FixedVar(_, _, d)) => match first_missing(c, d, 0) {
                Some(class_id) => Err(UnifyErrorModel::ConstraintNotSatisfied(class_id, b)),
                None => if fuel == 0 {
                    Err(UnifyErrorModel::VariableLimit)
                } else {
                    unify_work(subst_work(rest, i, b), sub.bind(i, b), next, (fuel - 1) as nat)
                },
            },
            (TypeModel::FixedVar(_, _, d), TypeModel::Var(i, c)) => match first_missing(c, d, 0) {
                Some(class_id) => Err(UnifyErrorModel::ConstraintNotSatisfied(class_id, a)),
                None => if fuel == 0 {
                    Err(UnifyErrorModel::VariableLimit)
                } else {
                    unify_work(subst_work(rest, i, a), sub.bind(i, a), next, (fuel - 1) as nat)
                },
            },
            (TypeModel::Var(i, c), _) => if b.occurs(i) {
                Err(UnifyErrorModel::Occurs(i, b))
            } else if fuel == 0 {
                    Err(UnifyErrorModel::VariableLimit)
                } else {
                    unify_work(subst_work(rest, i, b), sub.defer(c, 0, b).bind(i, b), next, (fuel - 1) as nat)
                },
            (_, TypeModel::Var(i, c)) => if a.occurs(i) {
                Err(UnifyErrorModel::Occurs(i, a))
            } else if fuel == 0 {
                    Err(UnifyErrorModel::VariableLimit)
                } else {
                    unify_work(subst_work(rest, i, a), sub.defer(c, 0, a).bind(i, a), next, (fuel - 1) as nat)
                },
            (TypeModel::FixedVar(_, _, _), TypeModel::FixedVar(_, _, _)) => if a == b {
                unify_work(rest, sub, next, fuel)
            } else {
                Err(UnifyErrorModel::Mismatch(a, b))
            },
            (TypeModel::Tuple(xs), TypeModel::Tuple(ys)) => if xs.len() == ys.len() {
                proof {
                    lemma_stack_pairs_size(xs, ys, 0, rest);
                }
                unify_work(stack_pairs(xs, ys, 0, rest), sub, next, fuel)
            } else {
                Err(UnifyErrorModel::Mismatch(a, b))
            },
            (TypeModel::Named(_, id1, xs), TypeModel::Named(_, id2, ys)) => if id1 == id2
                && xs.len() == ys.len() {
                proof {
                    lemma_stack_pairs_size(xs, ys, 0, rest);
                }
                unify_work(stack_pairs(xs, ys, 0, rest), sub, next, fuel)
            } else {
                Err(UnifyErrorModel::Mismatch(a, b))
            },
            (TypeModel::Function(f1, t1), TypeModel::Function(f2, t2)) => {
                proof {
                    let lower = rest.push((*t1, *t2));
                    let upper = lower.push((*f1, *f2));
                    assert(upper.drop_last() =~= lower);
                    assert(lower.drop_last() =~= rest);
                    assert(work_size(lower) == t1.size() + t2.size() + work_size(rest));
                    assert(work_size(upper) == f1.size() + f2.size() + work_size(lower));
                }
                unify_work(rest.push((*t1, *t2)).push((*f1, *f2)), sub, next, fuel)
            },
            _ => Err(UnifyErrorModel::Mismatch(a, b)),
        }
    }
}

/// The constraints with the substitution's bindings applied to their types.
pub open spec fn apply_to_constraints(sub: SubstitutionModel) -> Seq<ConstraintModel> {
    Seq::new(
        sub.constraints.len(),
        |i: int|
            ConstraintModel {
                class_id: sub.constraints[i].class_id,
                ty: sub.apply(sub.constraints[i].ty),
            },
    )
}

/// Unifies two types under a substitution: the types that the substitution
/// makes of them are unified, with a budget of one binding for each of
/// their nodes, and the bindings made are applied to the obligations.
pub open spec fn unify(sub: SubstitutionModel, next: nat, a: TypeModel, b: TypeModel) -> Result<
    (SubstitutionModel, nat),
    UnifyErrorModel,
> {
    let left = sub.apply(a);
    let right = sub.apply(b);
    match unify_work(seq![(left, right)], sub, next, saturate(left.size() + right.size()) as nat) {
        Err(e) => Err(e),
        Ok((result, n)) => Ok(
            (SubstitutionModel { constraints: apply_to_constraints(result), ..result }, n),
        ),
    }
}

/// The substitution without bindings or obligations.
pub open spec fn empty_substitution() -> SubstitutionModel {
    SubstitutionModel { bindings: Seq::empty(), constraints: Seq::empty() }
}

/// A substitution: the bindings of variables to types in the order they
/// were made, and the obligations that unification left open.
#[derive(Debug)]
pub struct Substitution {
    pub bindings: Vec<(usize, Type)>,
    pub constraints: Vec<Constraint>,
}

impl View for Substitution {
    type V = SubstitutionModel;

    open spec fn view(&self) -> SubstitutionModel {
        SubstitutionModel {
            bindings: binding_models(self.bindings@),
            constraints: constraint_models(self.constraints@),
        }
    }
}

/// `sorted` with `x` at its place, unless it is in the list.
#[verifier::loop_isolation(false)]
fn insert_class_id(sorted: &mut Vec<ClassId>, x: ClassId)
    ensures
        final(sorted)@ == insert_sorted(old(sorted)@, x),
{
    let ghost list = sorted@;
    let mut k: usize = 0;
    assert(list.take(0) + insert_sorted(list.skip(0), x) =~= insert_sorted(list, x)) by {
        assert(list.skip(0) =~= list);
    }
    while k < sorted.len()
        invariant
            k <= sorted.len(),
            sorted@ == list,
            insert_sorted(list, x) == list.take(k as int) + insert_sorted(list.skip(k as int), x),
        decreases sorted.len() - k,
    {
        let ghost tail = list.skip(k as int);
        assert(tail[0] == list[k as int]);
        assert(tail.drop_first() =~= list.skip(k + 1));
        if sorted[k].id == x.id {
            assert(tail.len() > 0 && tail[0].id == x.id);
            assert(insert_sorted(tail, x) == tail);
            assert(list.take(k as int) + tail =~= list);
            return ;
        }
        if sorted[k].id > x.id {
            assert(tail.len() > 0 && tail[0].id > x.id);
            assert(insert_sorted(tail, x) == seq![x] + tail);
            sorted.insert(k, x);
            assert(sorted@ =~= list.take(k as int) + (seq![x] + tail));
            return ;
        }
        assert(list.take(k as int) + (seq![list[k as int]] + insert_sorted(list.skip(k + 1), x))
            =~= list.take(k + 1) + insert_sorted(list.skip(k + 1), x));
        k = k + 1;
    }
    assert(list.skip(k as int) =~= Seq::<ClassId>::empty());
    assert(list.take(k as int) =~= list);
    sorted.push(x);
    assert(sorted@ =~= list + seq![x]);
}

/// The constraints of both lists, sorted by class id, each once.
pub fn merged_constraints(a: &Vec<ClassId>, b: &Vec<ClassId>) -> (r: Vec<ClassId>)
    ensures
        r@ == merge_constraints(a@, b@),
{
    let mut r: Vec<ClassId> = Vec::new();
    let mut i: usize = 0;
    while i < a.len()
        invariant
            i <= a.len(),
            insert_all(a@, 0, Seq::empty()) == insert_all(a@, i as int, r@),
        decreases a.len() - i,
    {
        insert_class_id(&mut r, a[i]);
        i = i + 1;
    }
    let ghost first = r@;
    let mut j: usize = 0;
    while j < b.len()
        invariant
            j <= b.len(),
            insert_all(b@, 0, first) == insert_all(b@, j as int, r@),
        decreases b.len() - j,
    {
        insert_class_id(&mut r, b[j]);
        j = j + 1;
    }
    r
}

/// The first class of `wanted` that `given` lacks.
pub fn find_missing(wanted: &Vec<ClassId>, given: &Vec<ClassId>) -> (r: Option<ClassId>)
    ensures
        r == first_missing(wanted@, given@, 0),
{
    let mut i: usize = 0;
    while i < wanted.len()
        invariant
            i <= wanted.len(),
            first_missing(wanted@, given@, 0) == first_missing(wanted@, given@, i as int),
        decreases wanted.len() - i,
    {
        if !contains_class_id(given, wanted[i]) {
            return Some(wanted[i]);
        }
        i = i + 1;
    }
    None
}

/// The stack with a copy of `replacement` in place of the free variable
/// `index` in every type.
fn subst_pairs(work: &Vec<(Type, Type)>, index: usize, replacement: &Type) -> (r: Vec<(Type, Type)>)
    ensures
        pair_models(r@) == subst_work(pair_models(work@), index, replacement@),
{
    let mut r: Vec<(Type, Type)> = Vec::new();
    let mut i: usize = 0;
    while i < work.len()
        invariant
            i <= work.len(),
            r.len() == i,
            forall|k: int|
                0 <= k < i ==> (#[trigger] r@[k]).0@ == work@[k].0@.subst(index, replacement@)
                    && r@[k].1@ == work@[k].1@.subst(index, replacement@),
        decreases work.len() - i,
    {
        r.push((work[i].0.subst(index, replacement), work[i].1.subst(index, replacement)));
        i = i + 1;
    }
    assert(pair_models(r@) =~= subst_work(pair_models(work@), index, replacement@));
    r
}

impl Substitution {
    pub fn new() -> (r: Substitution)
        ensures
            r@ == empty_substitution(),
    {
        let r = Substitution { bindings: Vec::new(), constraints: Vec::new() };
        assert(r@.bindings =~= Seq::empty());
        assert(r@.constraints =~= Seq::empty());
        r
    }

    /// Adds the binding of `index` to a copy of `ty`.
    pub fn add(&mut self, index: usize, ty: &Type)
        ensures
            final(self)@ == old(self)@.bind(index, ty@),
    {
        self.bindings.push((index, ty.copy()));
        assert(self@.bindings =~= old(self)@.bindings.push((index, ty@)));
    }

    /// Leaves open, for each class of `classes`, that `ty` is an instance of it.
    pub fn add_constraints(&mut self, classes: &Vec<ClassId>, ty: &Type)
        ensures
            final(self)@ == old(self)@.defer(classes@, 0, ty@),
    {
        let mut i: usize = 0;
        while i < classes.len()
            invariant
                i <= classes.len(),
                old(self)@.defer(classes@, 0, ty@) == self@.defer(classes@, i as int, ty@),
            decreases classes.len() - i,
        {
            let ghost before = self@;
            self.constraints.push(Constraint { class_id: classes[i], ty: ty.copy() });
            assert(self@.constraints =~= before.constraints.push(
                ConstraintModel { class_id: classes@[i as int], ty: ty@ },
            ));
            assert(self@.bindings == before.bindings);
            i = i + 1;
        }
    }

    /// What the substitution makes of a type.
    pub fn apply(&self, ty: &Type) -> (r: Type)
        ensures
            r@ == self@.apply(ty@),
    {
        let mut r = ty.copy();
        let mut i: usize = 0;
        while i < self.bindings.len()
            invariant
                i <= self.bindings.len(),
                self@.apply(ty@) == apply_bindings(self@.bindings, i as int, r@),
            decreases self.bindings.len() - i,
        {
            r = r.subst(self.bindings[i].0, &self.bindings[i].1);
            i = i + 1;
        }
        r
    }

    /// The obligations that unification left open.
    pub fn get_constraints(&self) -> (r: &Vec<Constraint>)
        ensures
            *r == self.constraints,
    {
        &self.constraints
    }

    /// A deep copy.
    pub fn copy(&self) -> (r: Substitution)
        ensures
            r@ == self@,
    {
        let mut bindings: Vec<(usize, Type)> = Vec::new();
        let mut i: usize = 0;
        while i < self.bindings.len()
            invariant
                i <= self.bindings.len(),
                bindings.len() == i,
                forall|k: int|
                    0 <= k < i ==> (#[trigger] bindings@[k]).0 == self.bindings@[k].0
                        && bindings@[k].1@ == self.bindings@[k].1@,
            decreases self.bindings.len() - i,
        {
            bindings.push((self.bindings[i].0, self.bindings[i].1.copy()));
            i = i + 1;
        }
        let mut constraints: Vec<Constraint> = Vec::new();
        let mut j: usize = 0;
        while j < self.constraints.len()
            invariant
                j <= self.constraints.len(),
                constraints.len() == j,
                forall|k: int| 0 <= k < j ==> (#[trigger] constraints@[k])@ == self.constraints@[k]@,
            decreases self.constraints.len() - j,
        {
            constraints.push(
                Constraint { class_id: self.constraints[j].class_id, ty: self.constraints[j].ty.copy() },
            );
            j = j + 1;
        }
        let r = Substitution { bindings, constraints };
        assert(r@.bindings =~= self@.bindings);
        assert(r@.constraints =~= self@.constraints);
        r
    }

    /// The substitution with its bindings applied to the types of its
    /// obligations.
    fn finish(self) -> (r: Substitution)
        ensures
            r@ == (SubstitutionModel { constraints: apply_to_constraints(self@), ..self@ }),
    {
        let mut constraints: Vec<Constraint> = Vec::new();
        let mut j: usize = 0;
        while j < self.constraints.len()
            invariant
                j <= self.constraints.len(),
                constraints.len() == j,
                forall|k: int|
                    0 <= k < j ==> (#[trigger] constraints@[k])@ == (ConstraintModel {
                        class_id: self.constraints@[k].class_id,
                        ty: self@.apply(self.constraints@[k].ty@),
                    }),
            decreases self.constraints.len() - j,
        {
            constraints.push(
                Constraint {
                    class_id: self.constraints[j].class_id,
                    ty: self.apply(&self.constraints[j].ty),
                },
            );
            j = j + 1;
        }
        let r = Substitution { bindings: self.bindings, constraints };
        assert(r@.constraints =~= apply_to_constraints(self@));
        r
    }
}

/// Pushes copies of the pairs of two lists of equal length on a stack, the
/// first pair on top.
fn push_pairs(work: &mut Vec<(Type, Type)>, xs: &Vec<Type>, ys: &Vec<Type>)
    requires
        xs.len() == ys.len(),
    ensures
        pair_models(final(work)@) == stack_pairs(
            type_models(xs@),
            type_models(ys@),
            0,
            pair_models(old(work)@),
        ),
{
    let ghost rest = pair_models(work@);
    let mut k: usize = xs.len();
    while k > 0
        invariant
            k <= xs.len(),
            xs.len() == ys.len(),
            pair_models(work@) == stack_pairs(type_models(xs@), type_models(ys@), k as int, rest),
        decreases k,
    {
        let ghost below = pair_models(work@);
        k = k - 1;
        work.push((xs[k].copy(), ys[k].copy()));
        assert(pair_models(work@) =~= below.push((xs@[k as int]@, ys@[k as int]@)));
    }
}

/// Binds `index` to `ty`: applies the binding to the stack and adds it to
/// the substitution, at the cost of one unit of fuel.
fn bind_variable(
    work: &mut Vec<(Type, Type)>,
    sub: &mut Substitution,
    fuel: &mut usize,
    index: usize,
    ty: &Type,
) -> (ok: bool)
    ensures
        ok == (*old(fuel) > 0),
        ok ==> pair_models(final(work)@) == subst_work(pair_models(old(work)@), index, ty@)
            && final(sub)@ == old(sub)@.bind(index, ty@) && *final(fuel) == *old(fuel) - 1,
        !ok ==> *final(work) == *old(work) && *final(sub) == *old(sub) && *final(fuel) == *old(fuel),
{
    if *fuel == 0 {
        return false;
    }
    let replaced = subst_pairs(work, index, ty);
    *work = replaced;
    sub.add(index, ty);
    *fuel = *fuel - 1;
    true
}

/// One step of unification: takes the top pair from the stack and unifies
/// its outer constructors. Returns whether unification goes on.
fn unify_step(
    work: &mut Vec<(Type, Type)>,
    sub: &mut Substitution,
    generator: &mut TypeVarGenerator,
    fuel: &mut usize,
) -> (r: Result<(), UnifyError>)
    requires
        old(work).len() > 0,
    ensures
        final(generator).next_index() >= old(generator).next_index(),
        match r {
            Ok(()) => unify_work(
                pair_models(old(work)@),
                old(sub)@,
                old(generator).next_index(),
                *old(fuel) as nat,
            ) == unify_work(
                pair_models(final(work)@),
                final(sub)@,
                final(generator).next_index(),
                *final(fuel) as nat,
            ) && (*final(fuel) < *old(fuel) || (*final(fuel) == *old(fuel) && work_size(
                pair_models(final(work)@),
            ) < work_size(pair_models(old(work)@)))),
            Err(e) => unify_work(
                pair_models(old(work)@),
                old(sub)@,
                old(generator).next_index(),
                *old(fuel) as nat,
            ) == Err::<(SubstitutionModel, nat), UnifyErrorModel>(e@),
        },
{
    let ghost before = pair_models(work@);
    let (a, b) = work.pop().unwrap();
    assert(pair_models(work@) =~= before.drop_last());
    assert(before.last() == (a@, b@));
    let ghost rest = pair_models(work@);
    match (&a, &b) {
        (Type::Var(i, ci), Type::Var(j, cj)) => {
            if !(*i == *j && class_ids_equal(ci, cj)) {
                if *fuel == 0 {
                    return Err(UnifyError::VariableLimit);
                }
                let index = match generator.get_new_index() {
                    Some(index) => index,
                    None => {
                        return Err(UnifyError::VariableLimit);
                    },
                };
                let fresh = Type::Var(index, merged_constraints(ci, cj));
                let first = subst_pairs(work, *i, &fresh);
                let second = subst_pairs(&first, *j, &fresh);
                *work = second;
                sub.add(*i, &fresh);
                sub.add(*j, &fresh);
                *fuel = *fuel - 1;
            }
            Ok(())
        },
        (Type::Var(i, c), Type::FixedVar(_, _, d)) => {
            match find_missing(c, d) {
                Some(class_id) => Err(UnifyError::ConstraintNotSatisfied(class_id, b)),
                None => {
                    if bind_variable(work, sub, fuel, *i, &b) {
                        Ok(())
                    } else {
                        Err(UnifyError::VariableLimit)
                    }
                },
            }
        },
        (Type::FixedVar(_, _, d), Type::Var(i, c)) => {
            match find_missing(c, d) {
                Some(class_id) => Err(UnifyError::ConstraintNotSatisfied(class_id, a)),
                None => {
                    if bind_variable(work, sub, fuel, *i, &a) {
                        Ok(())
                    } else {
                        Err(UnifyError::VariableLimit)
                    }
                },
            }
        },
        (Type::Var(i, c), _) => {
            if b.occurs(*i) {
                return Err(UnifyError::Occurs(*i, b));
            }
            if *fuel == 0 {
                return Err(UnifyError::VariableLimit);
            }
            sub.add_constraints(c, &b);
            let ok = bind_variable(work, sub, fuel, *i, &b);
            Ok(())
        },
        (_, Type::Var(i, c)) => {
            if a.occurs(*i) {
                return Err(UnifyError::Occurs(*i, a));
            }
            if *fuel == 0 {
                return Err(UnifyError::VariableLimit);
            }
            sub.add_constraints(c, &a);
            let ok = bind_variable(work, sub, fuel, *i, &a);
            Ok(())
        },
        (Type::FixedVar(_, _, _), Type::FixedVar(_, _, _)) => {
            if !a.equals(&b) {
                Err(UnifyError::Mismatch(a, b))
            } else {
                Ok(())
            }
        },
        (Type::Tuple(xs), Type::Tuple(ys)) => {
            assert(a@ matches TypeModel::Tuple(ms) ==> ms == type_models(xs@));
            assert(b@ matches TypeModel::Tuple(ms) ==> ms == type_models(ys@));
            if xs.len() != ys.len() {
                return Err(UnifyError::Mismatch(a, b));
            }
            proof {
                lemma_stack_pairs_size(type_models(xs@), type_models(ys@), 0, rest);
            }
            push_pairs(work, xs, ys);
            Ok(())
        },
        (Type::Named(_, id1, xs), Type::Named(_, id2, ys)) => {
            assert(a@ matches TypeModel::Named(_, _, ms) ==> ms == type_models(xs@));
            assert(b@ matches TypeModel::Named(_, _, ms) ==> ms == type_models(ys@));
            if id1.id != id2.id || xs.len() != ys.len() {
                return Err(UnifyError::Mismatch(a, b));
            }
            proof {
                lemma_stack_pairs_size(type_models(xs@), type_models(ys@), 0, rest);
            }
            push_pairs(work, xs, ys);
            Ok(())
        },
        (Type::Function(f1, t1), Type::Function(f2, t2)) => {
            work.push((t1.copy(), t2.copy()));
            work.push((f1.copy(), f2.copy()));
            proof {
                let lower = rest.push((t1@, t2@));
                let upper = lower.push((f1@, f2@));
                assert(pair_models(work@) =~= upper);
                assert(upper.drop_last() =~= lower);
                assert(lower.drop_last() =~= rest);
                assert(work_size(lower) == t1@.size() + t2@.size() + work_size(rest));
                assert(work_size(upper) == f1@.size() + f2@.size() + work_size(lower));
            }
            Ok(())
        },
        _ => Err(UnifyError::Mismatch(a, b)),
    }
}

/// Unifies the pairs of a stack, the last pair first, with `fuel` bindings
/// to spend.
#[verifier::loop_isolation(false)]
pub fn unify_pairs(
    work: Vec<(Type, Type)>,
    sub: Substitution,
    generator: &mut TypeVarGenerator,
    fuel: usize,
) -> (r: Result<Substitution, UnifyError>)
    ensures
        final(generator).next_index() >= old(generator).next_index(),
        match unify_work(pair_models(work@), sub@, old(generator).next_index(), fuel as nat) {
            Ok((result, next)) => r.is_ok() && r.unwrap()@ == result && final(generator).next_index()
                == next,
            Err(e) => r.is_err() && r.unwrap_err()@ == e && final(generator).next_index() == old(generator).next_index(),
        },
{
    let saved = generator.copy();
    let ghost start_work = pair_models(work@);
    let ghost start_sub = sub@;
    let ghost start_next = generator.next_index();
    let mut work = work;
    let mut sub = sub;
    let mut fuel = fuel;
    let ghost start_fuel = fuel as nat;
    while work.len() > 0
        invariant
            generator.next_index() >= start_next,
            unify_work(start_work, start_sub, start_next, start_fuel) == unify_work(
                pair_models(work@),
                sub@,
                generator.next_index(),
                fuel as nat,
            ),
        decreases fuel, work_size(pair_models(work@)),
    {
        match unify_step(&mut work, &mut sub, generator, &mut fuel) {
            Ok(()) => {},
            Err(e) => {
                *generator = saved;
                return Err(e);
            },
        }
    }
    Ok(sub)
}

/// The unifier: a substitution that grows with each unification, and the
/// source of the fresh variables it needs.
#[derive(Debug)]
pub struct Unifier {
    pub substitution: Substitution,
    pub type_var_generator: TypeVarGenerator,
}

impl Unifier {
    pub fn new(type_var_generator: TypeVarGenerator) -> (r: Unifier)
        ensures
            r.substitution@ == empty_substitution(),
            r.type_var_generator == type_var_generator,
    {
        Unifier { substitution: Substitution::new(), type_var_generator }
    }

    pub fn get_substitution(&self) -> (r: &Substitution)
        ensures
            *r == self.substitution,
    {
        &self.substitution
    }

    /// What the substitution makes of a type.
    pub fn apply(&self, ty: &Type) -> (r: Type)
        ensures
            r@ == self.substitution@.apply(ty@),
    {
        self.substitution.apply(ty)
    }

    /// Unifies two types. Where they unify, the substitution holds the
    /// bindings and obligations that make them equal; where they do not,
    /// the unifier is left as it was.
    pub fn unify(&mut self, type1: &Type, type2: &Type) -> (r: Result<(), UnifyError>)
        ensures
            match unify(
                old(self).substitution@,
                old(self).type_var_generator.next_index(),
                type1@,
                type2@,
            ) {
                Ok((sub, next)) => r.is_ok() && final(self).substitution@ == sub && final(self).type_var_generator.next_index() == next,
                Err(e) => r.is_err() && r.unwrap_err()@ == e && final(self).substitution@ == old(self).substitution@ && final(self).type_var_generator.next_index() == old(self).type_var_generator.next_index(),
            },
    {
        let left = self.substitution.apply(type1);
        let right = self.substitution.apply(type2);
        let fuel: usize = left.node_count().saturating_add(right.node_count());
        let sub = self.substitution.copy();
        let mut work: Vec<(Type, Type)> = Vec::new();
        work.push((left, right));
        assert(pair_models(work@) =~= seq![(left@, right@)]);
        match unify_pairs(work, sub, &mut self.type_var_generator, fuel) {
            Ok(result) => {
                self.substitution = result.finish();
                Ok(())
            },
            Err(e) => Err(e),
        }
    }

    /// The obligations that unification left open, each with its type as
    /// the substitution makes it.
    pub fn get_constraints(&self) -> (r: Vec<Constraint>)
        ensures
            constraint_models(r@) == self.substitution@.constraints,
    {
        let copy = self.substitution.copy();
        let r = copy.constraints;
        assert(constraint_models(r@) =~= self.substitution@.constraints);
        r
    }
}

} // verus!
