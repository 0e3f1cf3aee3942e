//! What holds of the copies with fresh variables: a copy is the type with
//! its variables renamed, one fresh index for each variable, and no index
//! for two of them.

use crate::ir::types::TypeModel;
use crate::typechecker::common::duplicate_items;
use crate::typechecker::common::rename_index;
use crate::typechecker::common::renamed;
use vstd::prelude::*;

verus! {

/// Whether a renaming is sound below `next`: it holds each variable once,
/// gives no fresh index to two variables, and every fresh index it gives
/// is below `next`.
pub open spec fn sound_renaming(map: Seq<(usize, usize)>, next: nat) -> bool {
    &&& forall|k: int| 0 <= k < map.len() ==> (#[trigger] map[k]).1 < next
    &&& forall|j: int, k: int|
        0 <= j < k < map.len() ==> (#[trigger] map[j]).0 != (#[trigger] map[k]).0 && map[j].1
            != map[k].1
}

/// Whether `later` begins with the entries of `earlier`.
pub open spec fn extends_renaming(later: Seq<(usize, usize)>, earlier: Seq<(usize, usize)>) -> bool {
    earlier.len() <= later.len() && forall|k: int|
        0 <= k < earlier.len() ==> #[trigger] later[k] == earlier[k]
}

/// Whether the renaming holds every variable of the type, free or rigid.
pub open spec fn covered(ty: TypeModel, map: Seq<(usize, usize)>) -> bool
    decreases ty,
{
    match ty {
        TypeModel::Tuple(items) => forall|i: int|
            0 <= i < items.len() ==> covered(#[trigger] items[i], map),
        TypeModel::Named(_, _, items) => forall|i: int|
            0 <= i < items.len() ==> covered(#[trigger] items[i], map),
        TypeModel::Function(from, to) => covered(*from, map) && covered(*to, map),
        TypeModel::Var(index, _) => renamed(map, index) is Some,
        TypeModel::FixedVar(index, _, _) => renamed(map, index) is Some,
    }
}

/// The type with each variable, free or rigid, replaced by the free
/// variable that the renaming gives it, with the same constraints.
pub open spec fn rename_by(ty: TypeModel, map: Seq<(usize, usize)>) -> TypeModel
    decreases ty,
{
    match ty {
        TypeModel::Tuple(items) => TypeModel::Tuple(
            Seq::new(
                items.len(),
                |i: int|
                    if 0 <= i < items.len() {
                        rename_by(items[i], map)
                    } else {
                        arbitrary()
                    },
            ),
        ),
        TypeModel::Named(name, id, items) => TypeModel::Named(
            name,
            id,
            Seq::new(
                items.len(),
                |i: int|
                    if 0 <= i < items.len() {
                        rename_by(items[i], map)
                    } else {
                        arbitrary()
                    },
            ),
        ),
        TypeModel::Function(from, to) => TypeModel::Function(
            Box::new(rename_by(*from, map)),
            Box::new(rename_by(*to, map)),
        ),
        TypeModel::Var(index, constraints) => TypeModel::Var(
            renamed(map, index).unwrap(),
            constraints,
        ),
        TypeModel::FixedVar(index, _, constraints) => TypeModel::Var(
            renamed(map, index).unwrap(),
            constraints,
        ),
    }
}

/// What a renaming gives a variable is the fresh index of an entry that
/// holds the variable.
pub proof fn lemma_renamed_is_an_entry(map: Seq<(usize, usize)>, index: usize)
    requires
        renamed(map, index) is Some,
    ensures
        exists|k: int|
            0 <= k < map.len() && (#[trigger] map[k]).0 == index && map[k].1 == renamed(
                map,
                index,
            ).unwrap(),
    decreases map.len(),
{
    if map.last().0 == index {
        assert(map[map.len() - 1].0 == index);
    } else {
        lemma_renamed_is_an_entry(map.drop_last(), index);
        let k = choose|k: int|
            0 <= k < map.drop_last().len() && (#[trigger] map.drop_last()[k]).0 == index
                && map.drop_last()[k].1 == renamed(map.drop_last(), index).unwrap();
        assert(map[k] == map.drop_last()[k]);
    }
}

/// A renaming that holds each variable once gives a variable the fresh
/// index of the entry that holds it.
pub proof fn lemma_entry_is_renamed(map: Seq<(usize, usize)>, next: nat, k: int)
    requires
        sound_renaming(map, next),
        0 <= k < map.len(),
    ensures
        renamed(map, map[k].0) == Some(map[k].1),
    decreases map.len(),
{
    if k < map.len() - 1 {
        assert(map[k].0 != map[map.len() - 1].0);
        let shorter = map.drop_last();
        assert forall|j: int, l: int| 0 <= j < l < shorter.len() implies (#[trigger] shorter[j]).0
            != (#[trigger] shorter[l]).0 && shorter[j].1 != shorter[l].1 by {
            assert(shorter[j] == map[j] && shorter[l] == map[l]);
        }
        assert forall|j: int| 0 <= j < shorter.len() implies (#[trigger] shorter[j]).1 < next by {
            assert(shorter[j] == map[j]);
        }
        lemma_entry_is_renamed(shorter, next, k);
        assert(shorter[k] == map[k]);
    }
}

/// A longer renaming gives a variable that the shorter one holds the same
/// fresh index.
pub proof fn lemma_renamed_stays(
    later: Seq<(usize, usize)>,
    earlier: Seq<(usize, usize)>,
    next: nat,
    index: usize,
)
    requires
        sound_renaming(later, next),
        extends_renaming(later, earlier),
        renamed(earlier, index) is Some,
    ensures
        renamed(later, index) == renamed(earlier, index),
{
    lemma_renamed_is_an_entry(earlier, index);
    let k = choose|k: int|
        0 <= k < earlier.len() && (#[trigger] earlier[k]).0 == index && earlier[k].1 == renamed(
            earlier,
            index,
        ).unwrap();
    assert(later[k] == earlier[k]);
    lemma_entry_is_renamed(later, next, k);
}

/// A longer renaming holds the variables of a type that the shorter one
/// holds, and makes the same type of it.
pub proof fn lemma_rename_stays(
    ty: TypeModel,
    later: Seq<(usize, usize)>,
    earlier: Seq<(usize, usize)>,
    next: nat,
)
    requires
        sound_renaming(later, next),
        extends_renaming(later, earlier),
        covered(ty, earlier),
    ensures
        covered(ty, later),
        rename_by(ty, later) == rename_by(ty, earlier),
    decreases ty,
{
    match ty {
        TypeModel::Tuple(items) => {
            assert forall|i: int| 0 <= i < items.len() implies covered(#[trigger] items[i], later)
                && rename_by(items[i], later) == rename_by(items[i], earlier) by {
                lemma_rename_stays(items[i], later, earlier, next);
            }
            assert(rename_by(ty, later)->Tuple_0 =~= rename_by(ty, earlier)->Tuple_0);
        },
        TypeModel::Named(_, _, items) => {
            assert forall|i: int| 0 <= i < items.len() implies covered(#[trigger] items[i], later)
                && rename_by(items[i], later) == rename_by(items[i], earlier) by {
                lemma_rename_stays(items[i], later, earlier, next);
            }
            assert(rename_by(ty, later)->Named_2 =~= rename_by(ty, earlier)->Named_2);
        },
        TypeModel::Function(from, to) => {
            lemma_rename_stays(*from, later, earlier, next);
            lemma_rename_stays(*to, later, earlier, next);
        },
        TypeModel::Var(index, _) => {
            lemma_renamed_stays(later, earlier, next, index);
        },
        TypeModel::FixedVar(index, _, _) => {
            lemma_renamed_stays(later, earlier, next, index);
        },
    }
}

/// Giving a variable its fresh index keeps a renaming sound, and the
/// renaming then holds the variable.
pub proof fn lemma_rename_index_is_sound(index: usize, map: Seq<(usize, usize)>, next: nat)
    requires
        sound_renaming(map, next),
        rename_index(index, map, next) is Some,
    ensures
        sound_renaming(rename_index(index, map, next).unwrap().1, rename_index(index, map, next).unwrap().2),
        extends_renaming(rename_index(index, map, next).unwrap().1, map),
        next <= rename_index(index, map, next).unwrap().2,
        renamed(rename_index(index, map, next).unwrap().1, index) == Some(
            rename_index(index, map, next).unwrap().0,
        ),
{
    if renamed(map, index) is None {
        let more = map.push((index, next as usize));
        assert forall|j: int, k: int| 0 <= j < k < more.len() implies (#[trigger] more[j]).0 != (
        #[trigger] more[k]).0 && more[j].1 != more[k].1 by {
            assert(more[j] == map[j]);
            if k < map.len() {
                assert(more[k] == map[k]);
            } else {
                if map[j].0 == index {
                    lemma_entry_is_renamed(map, next, j);
                }
            }
        }
        assert forall|k: int| 0 <= k < more.len() implies (#[trigger] more[k]).1 < next + 1 by {
            if k < map.len() {
                assert(more[k] == map[k]);
            }
        }
        assert(more.last() == (index, next as usize));
    }
}

/// A copy with fresh variables is the type renamed: copying keeps the
/// renaming sound, adds to it the variables of the type, and the copy is
/// what the renaming makes of the type. So each variable has one fresh
/// index wherever it stands, and no two variables share one.
pub proof fn lemma_duplicate_renames(ty: TypeModel, map: Seq<(usize, usize)>, next: nat)
    requires
        sound_renaming(map, next),
        ty.duplicate(map, next) is Some,
    ensures
        sound_renaming(ty.duplicate(map, next).unwrap().1, ty.duplicate(map, next).unwrap().2),
        extends_renaming(ty.duplicate(map, next).unwrap().1, map),
        next <= ty.duplicate(map, next).unwrap().2,
        covered(ty, ty.duplicate(map, next).unwrap().1),
        ty.duplicate(map, next).unwrap().0 == rename_by(ty, ty.duplicate(map, next).unwrap().1),
    decreases ty, 1nat,
{
    match ty {
        TypeModel::Tuple(items) => {
            lemma_duplicate_items_renames(items, 0, Seq::empty(), map, map, next);
            let m = ty.duplicate(map, next).unwrap().1;
            assert(ty.duplicate(map, next).unwrap().0->Tuple_0 =~= rename_by(ty, m)->Tuple_0);
        },
        TypeModel::Named(_, _, items) => {
            lemma_duplicate_items_renames(items, 0, Seq::empty(), map, map, next);
            let m = ty.duplicate(map, next).unwrap().1;
            assert(ty.duplicate(map, next).unwrap().0->Named_2 =~= rename_by(ty, m)->Named_2);
        },
        TypeModel::Function(from, to) => {
            lemma_duplicate_renames(*from, map, next);
            let (f, m1, n1) = from.duplicate(map, next).unwrap();
            lemma_duplicate_renames(*to, m1, n1);
            let (t, m2, n2) = to.duplicate(m1, n1).unwrap();
            lemma_rename_stays(*from, m2, m1, n2);
            assert forall|k: int| 0 <= k < map.len() implies #[trigger] m2[k] == map[k] by {
                assert(m1[k] == map[k]);
                assert(m2[k] == m1[k]);
            }
        },
        TypeModel::Var(index, _) => {
            lemma_rename_index_is_sound(index, map, next);
        },
        TypeModel::FixedVar(index, _, _) => {
            lemma_rename_index_is_sound(index, map, next);
        },
    }
}

/// The copies of the items of a list, made one after the other with one
/// renaming, are the items renamed by the renaming that the last one
/// leaves.
pub proof fn lemma_duplicate_items_renames(
    items: Seq<TypeModel>,
    from: int,
    copies: Seq<TypeModel>,
    start: Seq<(usize, usize)>,
    map: Seq<(usize, usize)>,
    next: nat,
)
    requires
        sound_renaming(map, next),
        extends_renaming(map, start),
        0 <= from <= items.len(),
        copies.len() == from,
        forall|k: int|
            0 <= k < from ==> covered(#[trigger] items[k], map) && copies[k] == rename_by(
                items[k],
                map,
            ),
        duplicate_items(items, from, copies, map, next) is Some,
    ensures
        sound_renaming(
            duplicate_items(items, from, copies, map, next).unwrap().1,
            duplicate_items(items, from, copies, map, next).unwrap().2,
        ),
        extends_renaming(duplicate_items(items, from, copies, map, next).unwrap().1, start),
        next <= duplicate_items(items, from, copies, map, next).unwrap().2,
        duplicate_items(items, from, copies, map, next).unwrap().0.len() == items.len(),
        forall|k: int|
            0 <= k < items.len() ==> covered(
                #[trigger] items[k],
                duplicate_items(items, from, copies, map, next).unwrap().1,
            ) && duplicate_items(items, from, copies, map, next).unwrap().0[k] == rename_by(
                items[k],
                duplicate_items(items, from, copies, map, next).unwrap().1,
            ),
    decreases items, items.len() - from,
{
    if from < items.len() {
        lemma_duplicate_renames(items[from], map, next);
        let (copy, m, n) = items[from].duplicate(map, next).unwrap();
        let more = copies.push(copy);
        assert forall|k: int| 0 <= k < from + 1 implies covered(#[trigger] items[k], m) && more[k]
            == rename_by(items[k], m) by {
            if k < from {
                lemma_rename_stays(items[k], m, map, n);
                assert(more[k] == copies[k]);
            }
        }
        assert forall|k: int| 0 <= k < start.len() implies #[trigger] m[k] == start[k] by {
            assert(map[k] == start[k]);
            assert(m[k] == map[k]);
        }
        lemma_duplicate_items_renames(items, from + 1, more, start, m, n);
    }
}

} // verus!
