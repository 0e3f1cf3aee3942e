//! Substitutions in solved form: what unification makes is a substitution
//! whose bindings hold none of the variables bound so far, and applying such
//! a substitution a second time changes nothing.

use crate::ir::types::TypeModel;
use crate::ir::unifier::apply_bindings;
use crate::ir::unifier::stack_pairs;
use crate::ir::unifier::subst_work;
use crate::ir::unifier::unify;
use crate::ir::unifier::unify_work;
use crate::ir::unifier::work_size;
use crate::ir::unifier::SubstitutionModel;
use crate::ir::unifier_laws::lemma_defer_keeps_bindings;
use crate::ir::unifier_laws::lemma_subst_absent;
use vstd::prelude::*;

verus! {

/// Whether the bindings are in solved form: the type of no binding holds
/// the variable of that binding or of a binding before it.
pub open spec fn solved(bindings: Seq<(usize, TypeModel)>) -> bool {
    forall|j: int, k: int|
        0 <= j <= k < bindings.len() ==> !(#[trigger] bindings[k]).1.occurs(
            (#[trigger] bindings[j]).0,
        )
}

/// Whether a substitution is in solved form and knows no variable from
/// `next` on: the variables it binds and those of the types it binds them
/// to are below `next`.
pub open spec fn solved_below(sub: SubstitutionModel, next: nat) -> bool {
    &&& solved(sub.bindings)
    &&& forall|k: int|
        0 <= k < sub.bindings.len() ==> (#[trigger] sub.bindings[k]).0 < next
            && sub.bindings[k].1.below(next)
}

/// Whether a type knows no variable from `next` on and holds no variable
/// that the bindings bind.
pub open spec fn clean_type(ty: TypeModel, bindings: Seq<(usize, TypeModel)>, next: nat) -> bool {
    ty.below(next) && forall|j: int| 0 <= j < bindings.len() ==> !ty.occurs((#[trigger] bindings[j]).0)
}

/// Whether both types of every pair of a stack are clean.
pub open spec fn clean(work: Seq<(TypeModel, TypeModel)>, bindings: Seq<(usize, TypeModel)>, next: nat) -> bool {
    forall|p: int|
        0 <= p < work.len() ==> clean_type((#[trigger] work[p]).0, bindings, next) && clean_type(
            work[p].1,
            bindings,
            next,
        )
}

/// A variable that occurs neither in a type nor in what is put into it, or
/// that is the one replaced, does not occur in the result.
pub proof fn lemma_subst_occurs(ty: TypeModel, index: usize, replacement: TypeModel, v: usize)
    requires
        !replacement.occurs(v),
        v == index || !ty.occurs(v),
    ensures
        !ty.subst(index, replacement).occurs(v),
    decreases ty,
{
    match ty {
        TypeModel::Tuple(items) => {
            let made = ty.subst(index, replacement)->Tuple_0;
            assert forall|i: int| 0 <= i < made.len() implies !(#[trigger] made[i]).occurs(v) by {
                if v != index {
                    assert(!items[i].occurs(v));
                }
                lemma_subst_occurs(items[i], index, replacement, v);
            }
        },
        TypeModel::Named(_, _, items) => {
            let made = ty.subst(index, replacement)->Named_2;
            assert forall|i: int| 0 <= i < made.len() implies !(#[trigger] made[i]).occurs(v) by {
                if v != index {
                    assert(!items[i].occurs(v));
                }
                lemma_subst_occurs(items[i], index, replacement, v);
            }
        },
        TypeModel::Function(from, to) => {
            lemma_subst_occurs(*from, index, replacement, v);
            lemma_subst_occurs(*to, index, replacement, v);
        },
        _ => {},
    }
}

/// A type that knows no variable from `bound` on knows none from a later
/// bound on.
pub proof fn lemma_below_more(ty: TypeModel, bound: nat, more: nat)
    requires
        ty.below(bound),
        bound <= more,
    ensures
        ty.below(more),
    decreases ty,
{
    match ty {
        TypeModel::Tuple(items) => {
            assert forall|i: int| 0 <= i < items.len() implies (#[trigger] items[i]).below(more) by {
                lemma_below_more(items[i], bound, more);
            }
        },
        TypeModel::Named(_, _, items) => {
            assert forall|i: int| 0 <= i < items.len() implies (#[trigger] items[i]).below(more) by {
                lemma_below_more(items[i], bound, more);
            }
        },
        TypeModel::Function(from, to) => {
            lemma_below_more(*from, bound, more);
            lemma_below_more(*to, bound, more);
        },
        _ => {},
    }
}

/// Putting a type into a type leaves the variables below the bound of
/// both.
pub proof fn lemma_subst_below(ty: TypeModel, index: usize, replacement: TypeModel, bound: nat)
    requires
        ty.below(bound),
        replacement.below(bound),
    ensures
        ty.subst(index, replacement).below(bound),
    decreases ty,
{
    match ty {
        TypeModel::Tuple(items) => {
            let made = ty.subst(index, replacement)->Tuple_0;
            assert forall|i: int| 0 <= i < made.len() implies (#[trigger] made[i]).below(bound) by {
                lemma_subst_below(items[i], index, replacement, bound);
            }
        },
        TypeModel::Named(_, _, items) => {
            let made = ty.subst(index, replacement)->Named_2;
            assert forall|i: int| 0 <= i < made.len() implies (#[trigger] made[i]).below(bound) by {
                lemma_subst_below(items[i], index, replacement, bound);
            }
        },
        TypeModel::Function(from, to) => {
            lemma_subst_below(*from, index, replacement, bound);
            lemma_subst_below(*to, index, replacement, bound);
        },
        _ => {},
    }
}

/// What bindings in solved form make of a type holds none of the variables
/// that they bind, where the type held none of those bound before `from`.
pub proof fn lemma_apply_removes_bound(bindings: Seq<(usize, TypeModel)>, from: int, ty: TypeModel)
    requires
        solved(bindings),
        0 <= from <= bindings.len(),
        forall|j: int| 0 <= j < from ==> !ty.occurs((#[trigger] bindings[j]).0),
    ensures
        forall|j: int|
            0 <= j < bindings.len() ==> !apply_bindings(bindings, from, ty).occurs(
                (#[trigger] bindings[j]).0,
            ),
    decreases bindings.len() - from,
{
    if from < bindings.len() {
        let next_type = ty.subst(bindings[from].0, bindings[from].1);
        assert forall|j: int| 0 <= j < from + 1 implies !next_type.occurs(
            (#[trigger] bindings[j]).0,
        ) by {
            assert(!bindings[from].1.occurs(bindings[j].0));
            lemma_subst_occurs(ty, bindings[from].0, bindings[from].1, bindings[j].0);
        }
        lemma_apply_removes_bound(bindings, from + 1, next_type);
    }
}

/// Bindings leave a type as it is that holds none of their variables.
pub proof fn lemma_apply_absent(bindings: Seq<(usize, TypeModel)>, from: int, ty: TypeModel)
    requires
        0 <= from,
        forall|j: int| from <= j < bindings.len() ==> !ty.occurs((#[trigger] bindings[j]).0),
    ensures
        apply_bindings(bindings, from, ty) == ty,
    decreases bindings.len() - from,
{
    if from < bindings.len() {
        lemma_subst_absent(ty, bindings[from].0, bindings[from].1);
        lemma_apply_absent(bindings, from + 1, ty);
    }
}

/// Applying a substitution in solved form is idempotent: what it makes of
/// a type, it leaves as it is.
pub proof fn lemma_apply_is_idempotent(sub: SubstitutionModel, ty: TypeModel)
    requires
        solved(sub.bindings),
    ensures
        sub.apply(sub.apply(ty)) == sub.apply(ty),
{
    lemma_apply_removes_bound(sub.bindings, 0, ty);
    lemma_apply_absent(sub.bindings, 0, sub.apply(ty));
}

/// What bindings make of a type knows no variable from `bound` on, where
/// neither the type nor the bindings do.
pub proof fn lemma_apply_below(bindings: Seq<(usize, TypeModel)>, from: int, ty: TypeModel, bound: nat)
    requires
        0 <= from,
        ty.below(bound),
        forall|k: int| 0 <= k < bindings.len() ==> (#[trigger] bindings[k]).1.below(bound),
    ensures
        apply_bindings(bindings, from, ty).below(bound),
    decreases bindings.len() - from,
{
    if from < bindings.len() {
        lemma_subst_below(ty, bindings[from].0, bindings[from].1, bound);
        lemma_apply_below(bindings, from + 1, ty.subst(bindings[from].0, bindings[from].1), bound);
    }
}

/// Pushing the pairs of two lists of clean types on a clean stack leaves
/// it clean.
pub proof fn lemma_stack_pairs_clean(
    xs: Seq<TypeModel>,
    ys: Seq<TypeModel>,
    from: int,
    rest: Seq<(TypeModel, TypeModel)>,
    bindings: Seq<(usize, TypeModel)>,
    next: nat,
)
    requires
        0 <= from,
        xs.len() == ys.len(),
        clean(rest, bindings, next),
        forall|k: int| 0 <= k < xs.len() ==> clean_type(#[trigger] xs[k], bindings, next),
        forall|k: int| 0 <= k < ys.len() ==> clean_type(#[trigger] ys[k], bindings, next),
    ensures
        clean(stack_pairs(xs, ys, from, rest), bindings, next),
    decreases xs.len() - from,
{
    if from < xs.len() {
        lemma_stack_pairs_clean(xs, ys, from + 1, rest, bindings, next);
    }
}

/// A clean stack stays clean where a variable of its types is bound to a
/// clean type that does not hold it, and the type is put in its place.
pub proof fn lemma_bind_keeps_clean(
    work: Seq<(TypeModel, TypeModel)>,
    bindings: Seq<(usize, TypeModel)>,
    next: nat,
    index: usize,
    ty: TypeModel,
)
    requires
        clean(work, bindings, next),
        clean_type(ty, bindings, next),
        !ty.occurs(index),
    ensures
        clean(subst_work(work, index, ty), bindings.push((index, ty)), next),
{
    let made = subst_work(work, index, ty);
    let more = bindings.push((index, ty));
    assert forall|p: int| 0 <= p < made.len() implies clean_type(
        (#[trigger] made[p]).0,
        more,
        next,
    ) && clean_type(made[p].1, more, next) by {
        assert(clean_type(work[p].0, bindings, next) && clean_type(work[p].1, bindings, next));
        lemma_subst_below(work[p].0, index, ty, next);
        lemma_subst_below(work[p].1, index, ty, next);
        assert forall|j: int| 0 <= j < more.len() implies !made[p].0.occurs(
            (#[trigger] more[j]).0,
        ) && !made[p].1.occurs(more[j].0) by {
            if j < bindings.len() {
                assert(more[j] == bindings[j]);
                assert(!ty.occurs(bindings[j].0));
            }
            lemma_subst_occurs(work[p].0, index, ty, more[j].0);
            lemma_subst_occurs(work[p].1, index, ty, more[j].0);
        }
    }
}

/// A substitution in solved form stays so where a variable below `next` is
/// bound to a clean type that does not hold it.
pub proof fn lemma_bind_keeps_solved(sub: SubstitutionModel, next: nat, index: usize, ty: TypeModel)
    requires
        solved_below(sub, next),
        clean_type(ty, sub.bindings, next),
        !ty.occurs(index),
        index < next,
    ensures
        solved_below(sub.bind(index, ty), next),
{
    let more = sub.bind(index, ty).bindings;
    assert forall|j: int, k: int| 0 <= j <= k < more.len() implies !(#[trigger] more[k]).1.occurs(
        (#[trigger] more[j]).0,
    ) by {
        if k < sub.bindings.len() {
            assert(more[k] == sub.bindings[k] && more[j] == sub.bindings[j]);
        } else if j < sub.bindings.len() {
            assert(more[j] == sub.bindings[j]);
        }
    }
    assert forall|k: int| 0 <= k < more.len() implies (#[trigger] more[k]).0 < next && more[k].1.below(
        next,
    ) by {
        if k < sub.bindings.len() {
            assert(more[k] == sub.bindings[k]);
        }
    }
}

/// A substitution that knows no variable from `next` on knows none from a
/// later index on, and a clean stack stays clean.
pub proof fn lemma_clean_more(
    work: Seq<(TypeModel, TypeModel)>,
    sub: SubstitutionModel,
    next: nat,
    more: nat,
)
    requires
        solved_below(sub, next),
        clean(work, sub.bindings, next),
        next <= more,
    ensures
        solved_below(sub, more),
        clean(work, sub.bindings, more),
{
    assert forall|k: int| 0 <= k < sub.bindings.len() implies (#[trigger] sub.bindings[k]).0 < more
        && sub.bindings[k].1.below(more) by {
        lemma_below_more(sub.bindings[k].1, next, more);
    }
    assert forall|p: int| 0 <= p < work.len() implies clean_type(
        (#[trigger] work[p]).0,
        sub.bindings,
        more,
    ) && clean_type(work[p].1, sub.bindings, more) by {
        lemma_below_more(work[p].0, next, more);
        lemma_below_more(work[p].1, next, more);
    }
}

/// Unifying the pairs of a clean stack under a substitution in solved form
/// gives a substitution in solved form.
pub proof fn lemma_unify_work_keeps_solved(
    work: Seq<(TypeModel, TypeModel)>,
    sub: SubstitutionModel,
    next: nat,
    fuel: nat,
)
    requires
        solved_below(sub, next),
        clean(work, sub.bindings, next),
        unify_work(work, sub, next, fuel) is Ok,
    ensures
        solved_below(unify_work(work, sub, next, fuel)->Ok_0.0, unify_work(work, sub, next, fuel)->Ok_0.1),
    decreases fuel, work_size(work),
{
    if work.len() > 0 {
        let a = work.last().0;
        let b = work.last().1;
        let rest = work.drop_last();
        assert(clean_type(work[work.len() - 1].0, sub.bindings, next));
        assert(clean_type(work[work.len() - 1].1, sub.bindings, next));
        assert forall|p: int| 0 <= p < rest.len() implies clean_type(
            (#[trigger] rest[p]).0,
            sub.bindings,
            next,
        ) && clean_type(rest[p].1, sub.bindings, next) by {
            assert(work[p] == rest[p]);
        }
        match (a, b) {
            (TypeModel::Var(i, ci), TypeModel::Var(j, cj)) => {
                if i == j && ci == cj {
                    lemma_unify_work_keeps_solved(rest, sub, next, fuel);
                } else {
                    let fresh = TypeModel::Var(next as usize, crate::ir::unifier::merge_constraints(ci, cj));
                    let more = (next + 1) as nat;
                    lemma_clean_more(rest, sub, next, more);
                    assert(clean_type(fresh, sub.bindings, more));
                    lemma_bind_keeps_solved(sub, more, i, fresh);
                    lemma_bind_keeps_clean(rest, sub.bindings, more, i, fresh);
                    let sub1 = sub.bind(i, fresh);
                    let rest1 = subst_work(rest, i, fresh);
                    assert(clean_type(fresh, sub1.bindings, more)) by {
                        assert forall|q: int| 0 <= q < sub1.bindings.len() implies !fresh.occurs(
                            (#[trigger] sub1.bindings[q]).0,
                        ) by {
                            if q < sub.bindings.len() {
                                assert(sub1.bindings[q] == sub.bindings[q]);
                            }
                        }
                    }
                    lemma_bind_keeps_solved(sub1, more, j, fresh);
                    lemma_bind_keeps_clean(rest1, sub1.bindings, more, j, fresh);
                    lemma_unify_work_keeps_solved(
                        subst_work(rest1, j, fresh),
                        sub1.bind(j, fresh),
                        more,
                        (fuel - 1) as nat,
                    );
                }
            },
            (TypeModel::Var(i, _), TypeModel::FixedVar(_, _, _)) => {
                lemma_bind_keeps_solved(sub, next, i, b);
                lemma_bind_keeps_clean(rest, sub.bindings, next, i, b);
                lemma_unify_work_keeps_solved(
                    subst_work(rest, i, b),
                    sub.bind(i, b),
                    next,
                    (fuel - 1) as nat,
                );
            },
            (TypeModel::FixedVar(_, _, _), TypeModel::Var(i, _)) => {
                lemma_bind_keeps_solved(sub, next, i, a);
                lemma_bind_keeps_clean(rest, sub.bindings, next, i, a);
                lemma_unify_work_keeps_solved(
                    subst_work(rest, i, a),
                    sub.bind(i, a),
                    next,
                    (fuel - 1) as nat,
                );
            },
            (TypeModel::Var(i, c), _) => {
                let deferred = sub.defer(c, 0, b);
                lemma_defer_keeps_bindings(sub, c, 0, b);
                lemma_bind_keeps_solved(deferred, next, i, b);
                lemma_bind_keeps_clean(rest, deferred.bindings, next, i, b);
                lemma_unify_work_keeps_solved(
                    subst_work(rest, i, b),
                    deferred.bind(i, b),
                    next,
                    (fuel - 1) as nat,
                );
            },
            (_, TypeModel::Var(i, c)) => {
                let deferred = sub.defer(c, 0, a);
                lemma_defer_keeps_bindings(sub, c, 0, a);
                lemma_bind_keeps_solved(deferred, next, i, a);
                lemma_bind_keeps_clean(rest, deferred.bindings, next, i, a);
                lemma_unify_work_keeps_solved(
                    subst_work(rest, i, a),
                    deferred.bind(i, a),
                    next,
                    (fuel - 1) as nat,
                );
            },
            (TypeModel::FixedVar(_, _, _), TypeModel::FixedVar(_, _, _)) => {
                lemma_unify_work_keeps_solved(rest, sub, next, fuel);
            },
            (TypeModel::Tuple(xs), TypeModel::Tuple(ys)) => {
                crate::ir::unifier::lemma_stack_pairs_size(xs, ys, 0, rest);
                lemma_stack_pairs_clean(xs, ys, 0, rest, sub.bindings, next);
                lemma_unify_work_keeps_solved(stack_pairs(xs, ys, 0, rest), sub, next, fuel);
            },
            (TypeModel::Named(_, _, xs), TypeModel::Named(_, _, ys)) => {
                crate::ir::unifier::lemma_stack_pairs_size(xs, ys, 0, rest);
                lemma_stack_pairs_clean(xs, ys, 0, rest, sub.bindings, next);
                lemma_unify_work_keeps_solved(stack_pairs(xs, ys, 0, rest), sub, next, fuel);
            },
            (TypeModel::Function(f1, t1), TypeModel::Function(f2, t2)) => {
                let lower = rest.push((*t1, *t2));
                let upper = lower.push((*f1, *f2));
                assert(upper.drop_last() =~= lower);
                assert(lower.drop_last() =~= rest);
                assert(work_size(lower) == t1.size() + t2.size() + work_size(rest));
                assert(work_size(upper) == f1.size() + f2.size() + work_size(lower));
                assert forall|p: int| 0 <= p < upper.len() implies clean_type(
                    (#[trigger] upper[p]).0,
                    sub.bindings,
                    next,
                ) && clean_type(upper[p].1, sub.bindings, next) by {
                    if p < rest.len() {
                        assert(upper[p] == rest[p]);
                    }
                }
                lemma_unify_work_keeps_solved(upper, sub, next, fuel);
            },
            _ => {},
        }
    }
}

/// Unification keeps substitutions in solved form: where the substitution
/// is in solved form and neither it nor the two types know a variable from
/// `next` on, the substitution that unifying the types gives is in solved
/// form, and applying it is idempotent.
pub proof fn lemma_unify_keeps_solved(sub: SubstitutionModel, next: nat, a: TypeModel, b: TypeModel, ty: TypeModel)
    requires
        solved_below(sub, next),
        a.below(next),
        b.below(next),
        unify(sub, next, a, b) is Ok,
    ensures
        solved_below(unify(sub, next, a, b)->Ok_0.0, unify(sub, next, a, b)->Ok_0.1),
        unify(sub, next, a, b)->Ok_0.0.apply(unify(sub, next, a, b)->Ok_0.0.apply(ty)) == unify(
            sub,
            next,
            a,
            b,
        )->Ok_0.0.apply(ty),
{
    let left = sub.apply(a);
    let right = sub.apply(b);
    lemma_apply_removes_bound(sub.bindings, 0, a);
    lemma_apply_removes_bound(sub.bindings, 0, b);
    lemma_apply_below(sub.bindings, 0, a, next);
    lemma_apply_below(sub.bindings, 0, b, next);
    let work = seq![(left, right)];
    assert(clean(work, sub.bindings, next));
    let fuel = crate::ir::types::saturate(left.size() + right.size()) as nat;
    lemma_unify_work_keeps_solved(work, sub, next, fuel);
    lemma_apply_is_idempotent(unify(sub, next, a, b)->Ok_0.0, ty);
}

} // verus!
