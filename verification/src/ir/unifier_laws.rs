//! What holds of unification: a substitution that it returns makes the two
//! types equal, and leaves alone the variables that it does not bind.

use crate::ir::class::ClassId;
use crate::ir::data::TypeDefId;
use crate::ir::types::TypeModel;
use crate::ir::unifier::apply_bindings;
use crate::ir::unifier::stack_pairs;
use crate::ir::unifier::subst_work;
use crate::ir::unifier::unify;
use crate::ir::unifier::unify_work;
use crate::ir::unifier::work_size;
use crate::ir::unifier::SubstitutionModel;
use crate::ir::unifier::lemma_stack_pairs_size;
use crate::ir::unifier::merge_constraints;
use crate::ir::unifier::first_missing;
use crate::ir::types::saturate;
use vstd::prelude::*;

verus! {

/// Putting a type in the place of a variable that does not occur changes
/// nothing.
pub proof fn lemma_subst_absent(ty: TypeModel, index: usize, replacement: TypeModel)
    requires
        !ty.occurs(index),
    ensures
        ty.subst(index, replacement) == ty,
    decreases ty,
{
    match ty {
        TypeModel::Tuple(items) => {
            assert forall|i: int| 0 <= i < items.len() implies (#[trigger] items[i]).subst(
                index,
                replacement,
            ) == items[i] by {
                lemma_subst_absent(items[i], index, replacement);
            }
            assert(ty.subst(index, replacement)->Tuple_0 =~= items);
        },
        TypeModel::Named(_, _, items) => {
            assert forall|i: int| 0 <= i < items.len() implies (#[trigger] items[i]).subst(
                index,
                replacement,
            ) == items[i] by {
                lemma_subst_absent(items[i], index, replacement);
            }
            assert(ty.subst(index, replacement)->Named_2 =~= items);
        },
        TypeModel::Function(from, to) => {
            lemma_subst_absent(*from, index, replacement);
            lemma_subst_absent(*to, index, replacement);
        },
        _ => {},
    }
}

/// Each item of a list of types as the bindings from position `from` on
/// make it.
pub open spec fn apply_to_items(bindings: Seq<(usize, TypeModel)>, from: int, items: Seq<TypeModel>) -> Seq<
    TypeModel,
> {
    Seq::new(items.len(), |i: int| apply_bindings(bindings, from, items[i]))
}

/// Bindings go through a tuple type to its items.
pub proof fn lemma_apply_tuple(bindings: Seq<(usize, TypeModel)>, from: int, items: Seq<TypeModel>)
    requires
        0 <= from,
    ensures
        apply_bindings(bindings, from, TypeModel::Tuple(items)) == TypeModel::Tuple(
            apply_to_items(bindings, from, items),
        ),
    decreases bindings.len() - from,
{
    if from < bindings.len() {
        let index = bindings[from].0;
        let replacement = bindings[from].1;
        let next = Seq::new(
            items.len(),
            |i: int|
                if 0 <= i < items.len() {
                    items[i].subst(index, replacement)
                } else {
                    arbitrary()
                },
        );
        assert(TypeModel::Tuple(items).subst(index, replacement)->Tuple_0 =~= next);
        lemma_apply_tuple(bindings, from + 1, next);
        assert(apply_to_items(bindings, from + 1, next) =~= apply_to_items(bindings, from, items));
    } else {
        assert(apply_to_items(bindings, from, items) =~= items);
    }
}

/// Bindings go through a named type to its arguments.
pub proof fn lemma_apply_named(
    bindings: Seq<(usize, TypeModel)>,
    from: int,
    name: Seq<char>,
    id: crate::ir::data::TypeDefId,
    items: Seq<TypeModel>,
)
    requires
        0 <= from,
    ensures
        apply_bindings(bindings, from, TypeModel::Named(name, id, items)) == TypeModel::Named(
            name,
            id,
            apply_to_items(bindings, from, items),
        ),
    decreases bindings.len() - from,
{
    if from < bindings.len() {
        let index = bindings[from].0;
        let replacement = bindings[from].1;
        let next = Seq::new(
            items.len(),
            |i: int|
                if 0 <= i < items.len() {
                    items[i].subst(index, replacement)
                } else {
                    arbitrary()
                },
        );
        assert(TypeModel::Named(name, id, items).subst(index, replacement)->Named_2 =~= next);
        lemma_apply_named(bindings, from + 1, name, id, next);
        assert(apply_to_items(bindings, from + 1, next) =~= apply_to_items(bindings, from, items));
    } else {
        assert(apply_to_items(bindings, from, items) =~= items);
    }
}

/// Bindings go through a function type to its two sides.
pub proof fn lemma_apply_function(
    bindings: Seq<(usize, TypeModel)>,
    from: int,
    argument: TypeModel,
    result: TypeModel,
)
    requires
        0 <= from,
    ensures
        apply_bindings(
            bindings,
            from,
            TypeModel::Function(Box::new(argument), Box::new(result)),
        ) == TypeModel::Function(
            Box::new(apply_bindings(bindings, from, argument)),
            Box::new(apply_bindings(bindings, from, result)),
        ),
    decreases bindings.len() - from,
{
    if from < bindings.len() {
        lemma_apply_function(
            bindings,
            from + 1,
            argument.subst(bindings[from].0, bindings[from].1),
            result.subst(bindings[from].0, bindings[from].1),
        );
    }
}

/// The bindings of two lists, one behind the other, make of a type what
/// the second list makes of what the first makes of it.
pub proof fn lemma_apply_concat(
    first: Seq<(usize, TypeModel)>,
    second: Seq<(usize, TypeModel)>,
    from: int,
    ty: TypeModel,
)
    requires
        0 <= from <= first.len(),
    ensures
        apply_bindings(first + second, from, ty) == apply_bindings(
            second,
            0,
            apply_bindings(first, from, ty),
        ),
    decreases first.len() - from,
{
    if from < first.len() {
        assert((first + second)[from] == first[from]);
        lemma_apply_concat(first, second, from + 1, ty.subst(first[from].0, first[from].1));
    } else {
        lemma_apply_shift(first, second, 0, ty);
    }
}

/// The bindings of a second list make of a type what the two lists
/// together, from behind the first on, make of it.
pub proof fn lemma_apply_shift(
    first: Seq<(usize, TypeModel)>,
    second: Seq<(usize, TypeModel)>,
    from: int,
    ty: TypeModel,
)
    requires
        0 <= from <= second.len(),
    ensures
        apply_bindings(first + second, first.len() + from, ty) == apply_bindings(second, from, ty),
    decreases second.len() - from,
{
    if from < second.len() {
        assert((first + second)[first.len() + from] == second[from]);
        lemma_apply_shift(first, second, from + 1, ty.subst(second[from].0, second[from].1));
    }
}

/// Whether every named type in a type carries the name that `names` gives
/// to its definition.
pub open spec fn named_by(ty: TypeModel, names: Map<TypeDefId, Seq<char>>) -> bool
    decreases ty,
{
    match ty {
        TypeModel::Tuple(items) => forall|i: int|
            0 <= i < items.len() ==> named_by(#[trigger] items[i], names),
        TypeModel::Named(name, id, items) => name == names[id] && forall|i: int|
            0 <= i < items.len() ==> named_by(#[trigger] items[i], names),
        TypeModel::Function(from, to) => named_by(*from, names) && named_by(*to, names),
        _ => true,
    }
}

/// Whether both types of every pair of a stack carry the names that
/// `names` gives.
pub open spec fn work_named(work: Seq<(TypeModel, TypeModel)>, names: Map<TypeDefId, Seq<char>>) -> bool {
    forall|k: int|
        0 <= k < work.len() ==> named_by((#[trigger] work[k]).0, names) && named_by(work[k].1, names)
}

/// Putting a type into a type keeps the names, where both carry them.
pub proof fn lemma_subst_named(
    ty: TypeModel,
    index: usize,
    replacement: TypeModel,
    names: Map<TypeDefId, Seq<char>>,
)
    requires
        named_by(ty, names),
        named_by(replacement, names),
    ensures
        named_by(ty.subst(index, replacement), names),
    decreases ty,
{
    match ty {
        TypeModel::Tuple(items) => {
            let made = ty.subst(index, replacement)->Tuple_0;
            assert forall|i: int| 0 <= i < made.len() implies named_by(#[trigger] made[i], names) by {
                lemma_subst_named(items[i], index, replacement, names);
            }
        },
        TypeModel::Named(_, _, items) => {
            let made = ty.subst(index, replacement)->Named_2;
            assert forall|i: int| 0 <= i < made.len() implies named_by(#[trigger] made[i], names) by {
                lemma_subst_named(items[i], index, replacement, names);
            }
        },
        TypeModel::Function(from, to) => {
            lemma_subst_named(*from, index, replacement, names);
            lemma_subst_named(*to, index, replacement, names);
        },
        _ => {},
    }
}

/// What bindings make of a type keeps the names, where the type and the
/// bindings carry them.
pub proof fn lemma_apply_named_by(
    bindings: Seq<(usize, TypeModel)>,
    from: int,
    ty: TypeModel,
    names: Map<TypeDefId, Seq<char>>,
)
    requires
        0 <= from,
        named_by(ty, names),
        forall|k: int| 0 <= k < bindings.len() ==> named_by((#[trigger] bindings[k]).1, names),
    ensures
        named_by(apply_bindings(bindings, from, ty), names),
    decreases bindings.len() - from,
{
    if from < bindings.len() {
        lemma_subst_named(ty, bindings[from].0, bindings[from].1, names);
        lemma_apply_named_by(bindings, from + 1, ty.subst(bindings[from].0, bindings[from].1), names);
    }
}

/// A stack keeps the names where a type that carries them is put into its
/// types.
pub proof fn lemma_subst_work_named(
    work: Seq<(TypeModel, TypeModel)>,
    index: usize,
    replacement: TypeModel,
    names: Map<TypeDefId, Seq<char>>,
)
    requires
        work_named(work, names),
        named_by(replacement, names),
    ensures
        work_named(subst_work(work, index, replacement), names),
{
    let made = subst_work(work, index, replacement);
    assert forall|k: int| 0 <= k < made.len() implies named_by((#[trigger] made[k]).0, names)
        && named_by(made[k].1, names) by {
        assert(named_by(work[k].0, names) && named_by(work[k].1, names));
        lemma_subst_named(work[k].0, index, replacement, names);
        lemma_subst_named(work[k].1, index, replacement, names);
    }
}

/// Pushing the pairs of two lists of types that carry the names on a stack
/// that carries them gives a stack that carries them.
pub proof fn lemma_stack_pairs_named(
    xs: Seq<TypeModel>,
    ys: Seq<TypeModel>,
    from: int,
    rest: Seq<(TypeModel, TypeModel)>,
    names: Map<TypeDefId, Seq<char>>,
)
    requires
        0 <= from,
        xs.len() == ys.len(),
        work_named(rest, names),
        forall|k: int| 0 <= k < xs.len() ==> named_by(#[trigger] xs[k], names),
        forall|k: int| 0 <= k < ys.len() ==> named_by(#[trigger] ys[k], names),
    ensures
        work_named(stack_pairs(xs, ys, from, rest), names),
    decreases xs.len() - from,
{
    if from < xs.len() {
        lemma_stack_pairs_named(xs, ys, from + 1, rest, names);
    }
}

/// Whether a list of bindings begins with the bindings of `earlier`.
pub open spec fn extends(later: Seq<(usize, TypeModel)>, earlier: Seq<(usize, TypeModel)>) -> bool {
    earlier.len() <= later.len() && later.take(earlier.len() as int) == earlier
}

/// What the bindings that `later` has behind those of `earlier` make of a
/// type.
pub open spec fn apply_added(
    later: Seq<(usize, TypeModel)>,
    earlier: Seq<(usize, TypeModel)>,
    ty: TypeModel,
) -> TypeModel {
    apply_bindings(later, earlier.len() as int, ty)
}

/// Whether the added bindings make the two types of every pair of a stack
/// equal.
pub open spec fn solves(
    later: Seq<(usize, TypeModel)>,
    earlier: Seq<(usize, TypeModel)>,
    work: Seq<(TypeModel, TypeModel)>,
) -> bool {
    forall|k: int|
        0 <= k < work.len() ==> apply_added(later, earlier, (#[trigger] work[k]).0) == apply_added(
            later,
            earlier,
            work[k].1,
        )
}

/// The bindings behind one more binding make of a type what all of them
/// make of it, once the one binding was applied.
pub proof fn lemma_apply_added_step(
    later: Seq<(usize, TypeModel)>,
    earlier: Seq<(usize, TypeModel)>,
    index: usize,
    bound: TypeModel,
    ty: TypeModel,
)
    requires
        extends(later, earlier.push((index, bound))),
    ensures
        extends(later, earlier),
        apply_added(later, earlier, ty) == apply_added(
            later,
            earlier.push((index, bound)),
            ty.subst(index, bound),
        ),
{
    let longer = earlier.push((index, bound));
    assert(later[earlier.len() as int] == longer[earlier.len() as int]);
    assert(later.take(earlier.len() as int) =~= longer.take(earlier.len() as int));
    assert(longer.take(earlier.len() as int) =~= earlier);
}

/// Where the pairs of two lists on a stack are all made equal, so are the
/// pairs of the stack below them and each pair of the two lists.
pub proof fn lemma_stack_pairs_solved(
    later: Seq<(usize, TypeModel)>,
    earlier: Seq<(usize, TypeModel)>,
    xs: Seq<TypeModel>,
    ys: Seq<TypeModel>,
    from: int,
    rest: Seq<(TypeModel, TypeModel)>,
)
    requires
        0 <= from,
        xs.len() == ys.len(),
        solves(later, earlier, stack_pairs(xs, ys, from, rest)),
    ensures
        solves(later, earlier, rest),
        forall|k: int|
            from <= k < xs.len() ==> apply_added(later, earlier, #[trigger] xs[k]) == apply_added(
                later,
                earlier,
                ys[k],
            ),
    decreases xs.len() - from,
{
    if from < xs.len() {
        let below = stack_pairs(xs, ys, from + 1, rest);
        let all = below.push((xs[from], ys[from]));
        assert(all == stack_pairs(xs, ys, from, rest));
        assert forall|k: int| 0 <= k < below.len() implies apply_added(
            later,
            earlier,
            (#[trigger] below[k]).0,
        ) == apply_added(later, earlier, below[k].1) by {
            assert(all[k] == below[k]);
        }
        assert(all[below.len() as int] == (xs[from], ys[from]));
        lemma_stack_pairs_solved(later, earlier, xs, ys, from + 1, rest);
    }
}

/// Soundness of the work on a stack whose named types carry the names of
/// their definitions: where unifying the pairs of the stack succeeds, the
/// substitution it returns holds the bindings it began with, and the
/// bindings it added make the two types of every pair equal.
pub proof fn lemma_unify_work_sound(
    work: Seq<(TypeModel, TypeModel)>,
    sub: SubstitutionModel,
    next: nat,
    fuel: nat,
    names: Map<TypeDefId, Seq<char>>,
)
    requires
        unify_work(work, sub, next, fuel).is_ok(),
        work_named(work, names),
    ensures
        extends(unify_work(work, sub, next, fuel)->Ok_0.0.bindings, sub.bindings),
        solves(unify_work(work, sub, next, fuel)->Ok_0.0.bindings, sub.bindings, work),
    decreases fuel, work_size(work),
{
    let result = unify_work(work, sub, next, fuel)->Ok_0.0.bindings;
    if work.len() == 0 {
        assert(result.take(sub.bindings.len() as int) =~= sub.bindings);
    } else {
        let a = work.last().0;
        let b = work.last().1;
        let rest = work.drop_last();
        let top = work.len() - 1;
        assert(named_by(work[top].0, names) && named_by(work[top].1, names));
        assert forall|k: int| 0 <= k < rest.len() implies named_by((#[trigger] rest[k]).0, names)
            && named_by(rest[k].1, names) by {
            assert(work[k] == rest[k]);
        }
        match (a, b) {
            (TypeModel::Var(i, ci), TypeModel::Var(j, cj)) => {
                if i == j && ci == cj {
                    lemma_unify_work_sound(rest, sub, next, fuel, names);
                    lemma_rest_solved(result, sub.bindings, work);
                } else {
                    let fresh = TypeModel::Var(next as usize, merge_constraints(ci, cj));
                    let sub1 = sub.bind(i, fresh);
                    let sub2 = sub1.bind(j, fresh);
                    let rest1 = subst_work(rest, i, fresh);
                    let rest2 = subst_work(rest1, j, fresh);
                    lemma_subst_work_named(rest, i, fresh, names);
                    lemma_subst_work_named(rest1, j, fresh, names);
                    lemma_unify_work_sound(rest2, sub2, next + 1, (fuel - 1) as nat, names);
                    lemma_apply_added_step(result, sub1.bindings, j, fresh, a);
                    lemma_apply_added_step(result, sub.bindings, i, fresh, a);
                    assert forall|k: int| 0 <= k < work.len() implies apply_added(
                        result,
                        sub.bindings,
                        (#[trigger] work[k]).0,
                    ) == apply_added(result, sub.bindings, work[k].1) by {
                        if k < top {
                            assert(work[k] == rest[k]);
                            assert(rest2[k].0 == rest[k].0.subst(i, fresh).subst(j, fresh));
                            assert(rest2[k].1 == rest[k].1.subst(i, fresh).subst(j, fresh));
                            lemma_apply_added_step(result, sub.bindings, i, fresh, rest[k].0);
                            lemma_apply_added_step(result, sub.bindings, i, fresh, rest[k].1);
                            lemma_apply_added_step(
                                result,
                                sub1.bindings,
                                j,
                                fresh,
                                rest[k].0.subst(i, fresh),
                            );
                            lemma_apply_added_step(
                                result,
                                sub1.bindings,
                                j,
                                fresh,
                                rest[k].1.subst(i, fresh),
                            );
                        } else {
                            lemma_apply_added_step(result, sub.bindings, i, fresh, b);
                            lemma_apply_added_step(
                                result,
                                sub1.bindings,
                                j,
                                fresh,
                                a.subst(i, fresh),
                            );
                            lemma_apply_added_step(
                                result,
                                sub1.bindings,
                                j,
                                fresh,
                                b.subst(i, fresh),
                            );
                        }
                    }
                }
            },
            (TypeModel::Var(i, c), TypeModel::FixedVar(_, _, d)) => {
                lemma_bind_sound(work, sub, sub, next, fuel, i, b, a, names);
            },
            (TypeModel::FixedVar(_, _, d), TypeModel::Var(i, c)) => {
                lemma_bind_sound(work, sub, sub, next, fuel, i, a, b, names);
            },
            (TypeModel::Var(i, c), _) => {
                lemma_defer_keeps_bindings(sub, c, 0, b);
                lemma_bind_sound(work, sub, sub.defer(c, 0, b), next, fuel, i, b, a, names);
            },
            (_, TypeModel::Var(i, c)) => {
                lemma_defer_keeps_bindings(sub, c, 0, a);
                lemma_bind_sound(work, sub, sub.defer(c, 0, a), next, fuel, i, a, b, names);
            },
            (TypeModel::FixedVar(_, _, _), TypeModel::FixedVar(_, _, _)) => {
                lemma_unify_work_sound(rest, sub, next, fuel, names);
                lemma_rest_solved(result, sub.bindings, work);
            },
            (TypeModel::Tuple(xs), TypeModel::Tuple(ys)) => {
                lemma_stack_pairs_size(xs, ys, 0, rest);
                lemma_stack_pairs_named(xs, ys, 0, rest, names);
                lemma_unify_work_sound(stack_pairs(xs, ys, 0, rest), sub, next, fuel, names);
                lemma_stack_pairs_solved(result, sub.bindings, xs, ys, 0, rest);
                lemma_apply_tuple(result, sub.bindings.len() as int, xs);
                lemma_apply_tuple(result, sub.bindings.len() as int, ys);
                assert(apply_to_items(result, sub.bindings.len() as int, xs) =~= apply_to_items(
                    result,
                    sub.bindings.len() as int,
                    ys,
                ));
                lemma_rest_solved(result, sub.bindings, work);
            },
            (TypeModel::Named(n1, id1, xs), TypeModel::Named(n2, id2, ys)) => {
                lemma_stack_pairs_size(xs, ys, 0, rest);
                lemma_stack_pairs_named(xs, ys, 0, rest, names);
                lemma_unify_work_sound(stack_pairs(xs, ys, 0, rest), sub, next, fuel, names);
                assert(n1 == n2);
                lemma_stack_pairs_solved(result, sub.bindings, xs, ys, 0, rest);
                lemma_apply_named(result, sub.bindings.len() as int, n1, id1, xs);
                lemma_apply_named(result, sub.bindings.len() as int, n2, id2, ys);
                assert(apply_to_items(result, sub.bindings.len() as int, xs) =~= apply_to_items(
                    result,
                    sub.bindings.len() as int,
                    ys,
                ));
                lemma_rest_solved(result, sub.bindings, work);
            },
            (TypeModel::Function(f1, t1), TypeModel::Function(f2, t2)) => {
                let lower = rest.push((*t1, *t2));
                let upper = lower.push((*f1, *f2));
                assert(upper.drop_last() =~= lower);
                assert(lower.drop_last() =~= rest);
                assert(work_size(lower) == t1.size() + t2.size() + work_size(rest));
                assert(work_size(upper) == f1.size() + f2.size() + work_size(lower));
                assert forall|k: int| 0 <= k < upper.len() implies named_by(
                    (#[trigger] upper[k]).0,
                    names,
                ) && named_by(upper[k].1, names) by {
                    if k < rest.len() {
                        assert(upper[k] == rest[k]);
                    }
                }
                lemma_unify_work_sound(upper, sub, next, fuel, names);
                assert(upper[rest.len() as int] == (*t1, *t2));
                assert(upper[rest.len() as int + 1] == (*f1, *f2));
                lemma_apply_function(result, sub.bindings.len() as int, *f1, *t1);
                lemma_apply_function(result, sub.bindings.len() as int, *f2, *t2);
                assert forall|k: int| 0 <= k < rest.len() implies apply_added(
                    result,
                    sub.bindings,
                    (#[trigger] rest[k]).0,
                ) == apply_added(result, sub.bindings, rest[k].1) by {
                    assert(upper[k] == rest[k]);
                }
                lemma_rest_solved(result, sub.bindings, work);
            },
            _ => {},
        }
    }
}

/// Where the pairs below the top of a stack are made equal, every pair of
/// the stack but the top is.
pub proof fn lemma_rest_solved(
    later: Seq<(usize, TypeModel)>,
    earlier: Seq<(usize, TypeModel)>,
    work: Seq<(TypeModel, TypeModel)>,
)
    requires
        work.len() > 0,
        solves(later, earlier, work.drop_last()),
    ensures
        forall|k: int|
            0 <= k < work.len() - 1 ==> apply_added(later, earlier, (#[trigger] work[k]).0)
                == apply_added(later, earlier, work[k].1),
{
    assert forall|k: int| 0 <= k < work.len() - 1 implies apply_added(
        later,
        earlier,
        (#[trigger] work[k]).0,
    ) == apply_added(later, earlier, work[k].1) by {
        assert(work.drop_last()[k] == work[k]);
    }
}

/// Leaving obligations open changes no binding.
pub proof fn lemma_defer_keeps_bindings(sub: SubstitutionModel, classes: Seq<ClassId>, from: int, ty: TypeModel)
    ensures
        sub.defer(classes, from, ty).bindings == sub.bindings,
    decreases classes.len() - from,
{
    if 0 <= from < classes.len() {
        lemma_defer_keeps_bindings(
            SubstitutionModel {
                constraints: sub.constraints.push(
                    crate::ir::unifier::ConstraintModel { class_id: classes[from], ty },
                ),
                ..sub
            },
            classes,
            from + 1,
            ty,
        );
    }
}

/// Soundness of a binding step: the variable `index`, the type `variable`
/// of the top pair, is bound to the other type of the pair, `bound`, in
/// which it does not occur.
pub proof fn lemma_bind_sound(
    work: Seq<(TypeModel, TypeModel)>,
    sub: SubstitutionModel,
    deferred: SubstitutionModel,
    next: nat,
    fuel: nat,
    index: usize,
    bound: TypeModel,
    variable: TypeModel,
    names: Map<TypeDefId, Seq<char>>,
)
    requires
        work.len() > 0,
        fuel > 0,
        work_named(work, names),
        deferred.bindings == sub.bindings,
        variable matches TypeModel::Var(i, _) && i == index,
        !bound.occurs(index),
        (work.last().0 == variable && work.last().1 == bound) || (work.last().0 == bound
            && work.last().1 == variable),
        unify_work(
            subst_work(work.drop_last(), index, bound),
            deferred.bind(index, bound),
            next,
            (fuel - 1) as nat,
        ).is_ok(),
    ensures
        extends(
            unify_work(
                subst_work(work.drop_last(), index, bound),
                deferred.bind(index, bound),
                next,
                (fuel - 1) as nat,
            )->Ok_0.0.bindings,
            sub.bindings,
        ),
        solves(
            unify_work(
                subst_work(work.drop_last(), index, bound),
                deferred.bind(index, bound),
                next,
                (fuel - 1) as nat,
            )->Ok_0.0.bindings,
            sub.bindings,
            work,
        ),
    decreases fuel, 0nat,
{
    let rest = work.drop_last();
    let rest1 = subst_work(rest, index, bound);
    let sub1 = deferred.bind(index, bound);
    let result = unify_work(rest1, sub1, next, (fuel - 1) as nat)->Ok_0.0.bindings;
    assert(named_by(work[work.len() - 1].0, names) && named_by(work[work.len() - 1].1, names));
    assert forall|k: int| 0 <= k < rest.len() implies named_by((#[trigger] rest[k]).0, names)
        && named_by(rest[k].1, names) by {
        assert(work[k] == rest[k]);
    }
    lemma_subst_work_named(rest, index, bound, names);
    lemma_unify_work_sound(rest1, sub1, next, (fuel - 1) as nat, names);
    assert(sub1.bindings == sub.bindings.push((index, bound)));
    lemma_apply_added_step(result, sub.bindings, index, bound, variable);
    lemma_apply_added_step(result, sub.bindings, index, bound, bound);
    lemma_subst_absent(bound, index, bound);
    assert forall|k: int| 0 <= k < work.len() implies apply_added(
        result,
        sub.bindings,
        (#[trigger] work[k]).0,
    ) == apply_added(result, sub.bindings, work[k].1) by {
        if k < work.len() - 1 {
            assert(work[k] == rest[k]);
            assert(rest1[k].0 == rest[k].0.subst(index, bound));
            assert(rest1[k].1 == rest[k].1.subst(index, bound));
            lemma_apply_added_step(result, sub.bindings, index, bound, rest[k].0);
            lemma_apply_added_step(result, sub.bindings, index, bound, rest[k].1);
        }
    }
}

/// Soundness of unification: where two types unify, the substitution that
/// unification returns makes the same type of both. Unification compares
/// the definitions that named types name, not the names they carry; so
/// this holds of types, and of a substitution, in which every named type
/// carries the name of its definition, as `names` gives it.
pub proof fn lemma_unify_sound(
    sub: SubstitutionModel,
    next: nat,
    a: TypeModel,
    b: TypeModel,
    names: Map<TypeDefId, Seq<char>>,
)
    requires
        unify(sub, next, a, b).is_ok(),
        named_by(a, names),
        named_by(b, names),
        forall|k: int| 0 <= k < sub.bindings.len() ==> named_by((#[trigger] sub.bindings[k]).1, names),
    ensures
        unify(sub, next, a, b)->Ok_0.0.apply(a) == unify(sub, next, a, b)->Ok_0.0.apply(b),
{
    let left = sub.apply(a);
    let right = sub.apply(b);
    let work = seq![(left, right)];
    let fuel = saturate(left.size() + right.size()) as nat;
    let result = unify_work(work, sub, next, fuel)->Ok_0.0.bindings;
    lemma_apply_named_by(sub.bindings, 0, a, names);
    lemma_apply_named_by(sub.bindings, 0, b, names);
    lemma_unify_work_sound(work, sub, next, fuel, names);
    assert(work[0] == (left, right));
    let added = result.skip(sub.bindings.len() as int);
    assert(result =~= sub.bindings + added);
    lemma_apply_concat(sub.bindings, added, 0, a);
    lemma_apply_concat(sub.bindings, added, 0, b);
    lemma_apply_shift(sub.bindings, added, 0, left);
    lemma_apply_shift(sub.bindings, added, 0, right);
}

/// A substitution leaves alone a free variable that it has no binding for.
pub proof fn lemma_apply_keeps_unbound(
    bindings: Seq<(usize, TypeModel)>,
    from: int,
    index: usize,
    constraints: Seq<ClassId>,
)
    requires
        0 <= from,
        forall|k: int| from <= k < bindings.len() ==> (#[trigger] bindings[k]).0 != index,
    ensures
        apply_bindings(bindings, from, TypeModel::Var(index, constraints)) == TypeModel::Var(
            index,
            constraints,
        ),
    decreases bindings.len() - from,
{
    if from < bindings.len() {
        lemma_apply_keeps_unbound(bindings, from + 1, index, constraints);
    }
}

/// A concrete type holds no free variable.
pub proof fn lemma_concrete_has_no_variable(ty: TypeModel, index: usize)
    requires
        ty.is_concrete(),
    ensures
        !ty.occurs(index),
    decreases ty,
{
    match ty {
        TypeModel::Tuple(items) => {
            assert forall|i: int| 0 <= i < items.len() implies !(#[trigger] items[i]).occurs(
                index,
            ) by {
                lemma_concrete_has_no_variable(items[i], index);
            }
        },
        TypeModel::Named(_, _, items) => {
            assert forall|i: int| 0 <= i < items.len() implies !(#[trigger] items[i]).occurs(
                index,
            ) by {
                lemma_concrete_has_no_variable(items[i], index);
            }
        },
        TypeModel::Function(from, to) => {
            lemma_concrete_has_no_variable(*from, index);
            lemma_concrete_has_no_variable(*to, index);
        },
        _ => {},
    }
}

/// Whether the first type of every pair of a stack is concrete.
pub open spec fn left_concrete(work: Seq<(TypeModel, TypeModel)>) -> bool {
    forall|k: int| 0 <= k < work.len() ==> (#[trigger] work[k]).0.is_concrete()
}

/// Pushing the pairs of two lists on a stack whose first types are
/// concrete leaves the first types concrete, where those of the first
/// list are.
pub proof fn lemma_stack_pairs_concrete(
    xs: Seq<TypeModel>,
    ys: Seq<TypeModel>,
    from: int,
    rest: Seq<(TypeModel, TypeModel)>,
)
    requires
        0 <= from,
        xs.len() == ys.len(),
        left_concrete(rest),
        forall|k: int| 0 <= k < xs.len() ==> (#[trigger] xs[k]).is_concrete(),
    ensures
        left_concrete(stack_pairs(xs, ys, from, rest)),
    decreases xs.len() - from,
{
    if from < xs.len() {
        lemma_stack_pairs_concrete(xs, ys, from + 1, rest);
    }
}

/// Whether two results of unification are the same but for the index of
/// the next fresh variable, which each left as it was.
pub open spec fn same_but_next(
    first: Result<(SubstitutionModel, nat), crate::ir::unifier::UnifyErrorModel>,
    second: Result<(SubstitutionModel, nat), crate::ir::unifier::UnifyErrorModel>,
    first_next: nat,
    second_next: nat,
) -> bool {
    match (first, second) {
        (Ok((s1, n1)), Ok((s2, n2))) => s1 == s2 && n1 == first_next && n2 == second_next,
        (Err(e1), Err(e2)) => e1 == e2,
        _ => false,
    }
}

/// Unifying concrete types with other types needs no fresh variable: the
/// result does not depend on where the fresh variables stand.
pub proof fn lemma_concrete_work_needs_no_variable(
    work: Seq<(TypeModel, TypeModel)>,
    sub: SubstitutionModel,
    first_next: nat,
    second_next: nat,
    fuel: nat,
)
    requires
        left_concrete(work),
    ensures
        same_but_next(
            unify_work(work, sub, first_next, fuel),
            unify_work(work, sub, second_next, fuel),
            first_next,
            second_next,
        ),
    decreases fuel, work_size(work),
{
    if work.len() > 0 {
        let a = work.last().0;
        let b = work.last().1;
        let rest = work.drop_last();
        assert(work[work.len() - 1].0.is_concrete());
        assert forall|k: int| 0 <= k < rest.len() implies (#[trigger] rest[k]).0.is_concrete() by {
            assert(work[k] == rest[k]);
        }
        match (a, b) {
            (_, TypeModel::Var(i, c)) => {
                lemma_concrete_has_no_variable(a, i);
                if fuel > 0 {
                    let rest1 = subst_work(rest, i, a);
                    assert forall|k: int| 0 <= k < rest1.len() implies (
                    #[trigger] rest1[k]).0.is_concrete() by {
                        lemma_concrete_has_no_variable(rest[k].0, i);
                        lemma_subst_absent(rest[k].0, i, a);
                    }
                    lemma_concrete_work_needs_no_variable(
                        rest1,
                        sub.defer(c, 0, a).bind(i, a),
                        first_next,
                        second_next,
                        (fuel - 1) as nat,
                    );
                }
            },
            (TypeModel::Tuple(xs), TypeModel::Tuple(ys)) => {
                if xs.len() == ys.len() {
                    lemma_stack_pairs_size(xs, ys, 0, rest);
                    lemma_stack_pairs_concrete(xs, ys, 0, rest);
                    lemma_concrete_work_needs_no_variable(
                        stack_pairs(xs, ys, 0, rest),
                        sub,
                        first_next,
                        second_next,
                        fuel,
                    );
                }
            },
            (TypeModel::Named(_, id1, xs), TypeModel::Named(_, id2, ys)) => {
                if id1 == id2 && xs.len() == ys.len() {
                    lemma_stack_pairs_size(xs, ys, 0, rest);
                    lemma_stack_pairs_concrete(xs, ys, 0, rest);
                    lemma_concrete_work_needs_no_variable(
                        stack_pairs(xs, ys, 0, rest),
                        sub,
                        first_next,
                        second_next,
                        fuel,
                    );
                }
            },
            (TypeModel::Function(f1, t1), TypeModel::Function(f2, t2)) => {
                let lower = rest.push((*t1, *t2));
                let upper = lower.push((*f1, *f2));
                assert(upper.drop_last() =~= lower);
                assert(lower.drop_last() =~= rest);
                assert(work_size(lower) == t1.size() + t2.size() + work_size(rest));
                assert(work_size(upper) == f1.size() + f2.size() + work_size(lower));
                assert forall|k: int| 0 <= k < upper.len() implies (
                #[trigger] upper[k]).0.is_concrete() by {
                    if k < rest.len() {
                        assert(upper[k] == rest[k]);
                    }
                }
                lemma_concrete_work_needs_no_variable(upper, sub, first_next, second_next, fuel);
            },
            _ => {},
        }
    }
}

/// Unifying a concrete type with another type, from the empty
/// substitution, gives the same substitution wherever the fresh variables
/// stand.
pub proof fn lemma_unify_concrete_is_determined(
    concrete: TypeModel,
    other: TypeModel,
    first_next: nat,
    second_next: nat,
)
    requires
        concrete.is_concrete(),
    ensures
        same_but_next(
            unify(crate::ir::unifier::empty_substitution(), first_next, concrete, other),
            unify(crate::ir::unifier::empty_substitution(), second_next, concrete, other),
            first_next,
            second_next,
        ),
{
    let sub = crate::ir::unifier::empty_substitution();
    let left = sub.apply(concrete);
    let right = sub.apply(other);
    let work = seq![(left, right)];
    assert(work[0].0 == concrete);
    lemma_concrete_work_needs_no_variable(
        work,
        sub,
        first_next,
        second_next,
        saturate(left.size() + right.size()) as nat,
    );
}

} // verus!
