//! Dependency groups: the functions of a program that call each other,
//! directly or through others, are inferred together, and a group comes
//! after every group that it calls.

use crate::ir::expr::Case;
use crate::ir::expr::Expr;
use crate::ir::expr::ExprId;
use crate::ir::expr::RecordFieldValueExpr;
use crate::ir::expr::RecordUpdateInfo;
use crate::ir::function::FunctionId;
use crate::ir::function::FunctionInfo;
use crate::ir::pattern::Pattern;
use crate::ir::pattern::PatternId;
use crate::ir::program::Declarations;
use crate::ir::program::Program;
use crate::typechecker::expression_checker::DependencyGroup;
use vstd::prelude::*;

verus! {

/// The rows of a table.
pub open spec fn rows(table: Seq<Vec<bool>>) -> Seq<Seq<bool>> {
    Seq::new(table.len(), |i: int| table[i]@)
}

/// The functions of each group of a list.
pub open spec fn group_items(groups: Seq<DependencyGroup>) -> Seq<Seq<FunctionId>> {
    Seq::new(groups.len(), |g: int| groups[g].items@)
}

/// Whether a table of booleans has `n` rows of `n` entries each.
pub open spec fn square(table: Seq<Seq<bool>>, n: int) -> bool {
    table.len() == n && forall|i: int| 0 <= i < n ==> (#[trigger] table[i]).len() == n
}

/// Whether the table relates `a` to `b`.
pub open spec fn related(table: Seq<Seq<bool>>, a: int, b: int) -> bool {
    table[a][b]
}

/// Whether the table relates each of its `n` members to itself, and `a` to
/// `c` wherever it relates `a` to `b` and `b` to `c`.
pub open spec fn preorder(table: Seq<Seq<bool>>, n: int) -> bool {
    &&& square(table, n)
    &&& forall|i: int| 0 <= i < n ==> #[trigger] related(table, i, i)
    &&& forall|a: int, b: int, c: int|
        0 <= a < n && 0 <= b < n && 0 <= c < n && #[trigger] related(table, a, b)
            && #[trigger] related(table, b, c) ==> related(table, a, c)
}

/// Whether the table relates `a` to `b` and `b` to `a`.
pub open spec fn mutual(table: Seq<Seq<bool>>, a: int, b: int) -> bool {
    related(table, a, b) && related(table, b, a)
}

/// The number of entries of `row` below position `upto` that hold.
pub open spec fn count_true(row: Seq<bool>, upto: int) -> nat
    decreases upto,
{
    if upto <= 0 {
        0
    } else {
        count_true(row, upto - 1) + if row[upto - 1] {
            1nat
        } else {
            0nat
        }
    }
}

/// The number of members that the table relates `i` to.
pub open spec fn rank(table: Seq<Seq<bool>>, i: int) -> nat {
    count_true(table[i], table.len() as int)
}

/// Whether `l` is the first of the members that it is mutually related to.
pub open spec fn is_leader(table: Seq<Seq<bool>>, l: int) -> bool {
    forall|j: int| 0 <= j < l ==> !#[trigger] mutual(table, l, j)
}

/// Whether `items` holds the function with the number `x`.
pub open spec fn holds(items: Seq<FunctionId>, x: int) -> bool {
    exists|k: int| 0 <= k < items.len() && #[trigger] items[k].id == x
}

/// Whether `l` comes before the place `(v, i)`: its rank is below `v`, or
/// its rank is `v` and it is below `i`.
pub open spec fn before(table: Seq<Seq<bool>>, l: int, v: int, i: int) -> bool {
    rank(table, l) < v || (rank(table, l) == v && l < i)
}

/// The members below `upto` that are mutually related to `l`, in order.
pub open spec fn members(table: Seq<Seq<bool>>, l: int, upto: int) -> Seq<FunctionId>
    decreases upto,
{
    if upto <= 0 {
        Seq::empty()
    } else if mutual(table, l, upto - 1) {
        members(table, l, upto - 1).push(FunctionId { id: (upto - 1) as usize })
    } else {
        members(table, l, upto - 1)
    }
}

/// The groups of the leaders before the place `(v, i)`, in the order of
/// their places: each leader with the members it is mutually related to.
pub open spec fn groups_before(table: Seq<Seq<bool>>, v: int, i: int) -> Seq<Seq<FunctionId>>
    decreases v, i,
{
    if v <= 0 {
        Seq::empty()
    } else if i <= 0 {
        groups_before(table, v - 1, table.len() as int)
    } else if rank(table, i - 1) == v && is_leader(table, i - 1) {
        groups_before(table, v, i - 1).push(members(table, i - 1, table.len() as int))
    } else {
        groups_before(table, v, i - 1)
    }
}

/// The groups of a table: the classes of mutually related members, in the
/// order of the ranks of their leaders, and among leaders of one rank in
/// the order of the leaders.
pub open spec fn rank_groups(table: Seq<Seq<bool>>) -> Seq<Seq<FunctionId>> {
    groups_before(table, table.len() as int, table.len() as int)
}

/// Whether `items` holds, each once, the members that are mutually related
/// to `l`.
pub open spec fn is_group_of(table: Seq<Seq<bool>>, items: Seq<FunctionId>, l: int) -> bool {
    &&& forall|p: int, q: int| 0 <= p < q < items.len() ==> (#[trigger] items[p]).id < (#[trigger] items[q]).id
    &&& forall|k: int| 0 <= k < items.len() ==> (#[trigger] items[k]).id < table.len() && mutual(table, l, items[k].id as int)
    &&& forall|x: int| 0 <= x < table.len() && #[trigger] mutual(table, l, x) ==> holds(items, x)
}

/// Whether one of the groups holds the function with the number `a`.
pub open spec fn has_group(groups: Seq<DependencyGroup>, a: int) -> bool {
    exists|g: int| 0 <= g < groups.len() && #[trigger] holds(groups[g].items@, a)
}

/// Whether `groups` are the classes of mutually related members of the
/// table, and no member of a group is related to a member of a later one:
/// every member is in a group; the members of a group are mutually
/// related, and each is there once; and the table relates no member of a
/// group to a member of a group behind it.
pub open spec fn grouped(table: Seq<Seq<bool>>, groups: Seq<DependencyGroup>) -> bool {
    &&& forall|a: int| 0 <= a < table.len() ==> #[trigger] has_group(groups, a)
    &&& forall|g: int, p: int, q: int|
        0 <= g < groups.len() && 0 <= p < groups[g].items@.len() && 0 <= q < groups[g].items@.len()
            ==> (#[trigger] groups[g].items@[p]).id < table.len() && (
        #[trigger] groups[g].items@[q]).id < table.len() && mutual(
            table,
            groups[g].items@[p].id as int,
            groups[g].items@[q].id as int,
        ) && (p != q ==> groups[g].items@[p] != groups[g].items@[q])
    &&& forall|g: int, h: int, p: int, q: int|
        0 <= g < h < groups.len() && 0 <= p < groups[g].items@.len() && 0 <= q
            < groups[h].items@.len() ==> !related(
            table,
            (#[trigger] groups[g].items@[p]).id as int,
            (#[trigger] groups[h].items@[q]).id as int,
        )
}

/// Of two rows of which the second holds only where the first holds, the
/// second holds no more often; and where it holds as often, the two agree.
pub proof fn lemma_count_of_part(whole: Seq<bool>, part: Seq<bool>, upto: int)
    requires
        0 <= upto <= whole.len(),
        upto <= part.len(),
        forall|j: int| 0 <= j < upto && #[trigger] part[j] ==> whole[j],
    ensures
        count_true(part, upto) <= count_true(whole, upto),
        count_true(part, upto) <= upto,
        count_true(part, upto) == count_true(whole, upto) ==> forall|j: int|
            0 <= j < upto ==> #[trigger] part[j] == whole[j],
    decreases upto,
{
    if upto > 0 {
        lemma_count_of_part(whole, part, upto - 1);
    }
}

/// A row that holds somewhere below `upto` holds at least once.
pub proof fn lemma_count_positive(row: Seq<bool>, upto: int, j: int)
    requires
        0 <= j < upto <= row.len(),
        row[j],
    ensures
        count_true(row, upto) >= 1,
    decreases upto,
{
    if j < upto - 1 {
        lemma_count_positive(row, upto - 1, j);
    }
}

/// Where the table relates `x` to `y`, the rank of `y` is at most that of
/// `x`; and where the ranks are equal, it relates `y` to `x` too.
pub proof fn lemma_rank_of_related(table: Seq<Seq<bool>>, n: int, x: int, y: int)
    requires
        preorder(table, n),
        0 <= x < n,
        0 <= y < n,
        related(table, x, y),
    ensures
        rank(table, y) <= rank(table, x),
        rank(table, y) <= n,
        rank(table, y) == rank(table, x) ==> related(table, y, x),
{
    assert forall|j: int| 0 <= j < n && #[trigger] table[y][j] implies table[x][j] by {
        assert(related(table, y, j));
        assert(related(table, x, y));
        assert(related(table, x, j));
    }
    lemma_count_of_part(table[x], table[y], n);
    if rank(table, y) == rank(table, x) {
        assert(related(table, x, x));
        assert(table[x][x]);
        assert(table[y][x] == table[x][x]);
    }
}

/// The first member from `from` on that is mutually related to `a`; `a`
/// itself where there is none below it.
pub open spec fn leader_of(table: Seq<Seq<bool>>, a: int, from: int) -> int
    decreases a - from,
{
    if from < 0 || from >= a {
        a
    } else if mutual(table, a, from) {
        from
    } else {
        leader_of(table, a, from + 1)
    }
}

/// The leader of a member is a leader, and mutually related to the member.
pub proof fn lemma_leader_of(table: Seq<Seq<bool>>, n: int, a: int, from: int)
    requires
        preorder(table, n),
        0 <= a < n,
        0 <= from <= a,
        forall|j: int| 0 <= j < from ==> !#[trigger] mutual(table, a, j),
    ensures
        0 <= leader_of(table, a, from) <= a,
        mutual(table, a, leader_of(table, a, from)),
        is_leader(table, leader_of(table, a, from)),
    decreases a - from,
{
    if from >= a {
        assert(related(table, a, a));
    } else if mutual(table, a, from) {
        assert forall|j: int| 0 <= j < from implies !#[trigger] mutual(table, from, j) by {
            if mutual(table, from, j) {
                assert(related(table, a, from) && related(table, from, j));
                assert(related(table, j, from) && related(table, from, a));
                assert(mutual(table, a, j));
            }
        }
    } else {
        lemma_leader_of(table, n, a, from + 1);
    }
}

/// What the leaders say of the groups while the groups are made, up to the
/// place `(v, i)`: each group is the class of its leader, the leaders are
/// in the order of their places, and each leader before the place has its
/// group.
pub open spec fn groups_made(
    table: Seq<Seq<bool>>,
    groups: Seq<DependencyGroup>,
    leaders: Seq<int>,
    v: int,
    i: int,
) -> bool {
    &&& leaders.len() == groups.len()
    &&& forall|g: int|
        0 <= g < leaders.len() ==> 0 <= #[trigger] leaders[g] < table.len() && is_leader(
            table,
            leaders[g],
        ) && before(table, leaders[g], v, i) && is_group_of(table, groups[g].items@, leaders[g])
    &&& forall|l: int|
        0 <= l < table.len() && is_leader(table, l) && #[trigger] before(table, l, v, i)
            ==> exists|g: int| 0 <= g < leaders.len() && #[trigger] leaders[g] == l
    &&& forall|g: int, h: int|
        0 <= g < h < leaders.len() ==> before(
            table,
            #[trigger] leaders[g],
            rank(table, #[trigger] leaders[h]) as int,
            leaders[h],
        )
}

/// Groups made up to a place behind all ranks are the groups of the table.
pub proof fn lemma_groups_made(
    table: Seq<Seq<bool>>,
    n: int,
    groups: Seq<DependencyGroup>,
    leaders: Seq<int>,
)
    requires
        preorder(table, n),
        groups_made(table, groups, leaders, n + 1, 0),
    ensures
        grouped(table, groups),
{
    assert forall|a: int| 0 <= a < table.len() implies #[trigger] has_group(groups, a) by {
        lemma_leader_of(table, n, a, 0);
        let l = leader_of(table, a, 0);
        assert(related(table, l, l));
        lemma_rank_of_related(table, n, l, l);
        assert(before(table, l, n + 1, 0));
        let g = choose|g: int| 0 <= g < leaders.len() && #[trigger] leaders[g] == l;
        assert(is_group_of(table, groups[g].items@, leaders[g]));
        assert(mutual(table, l, a));
        assert(holds(groups[g].items@, a));
    }
    assert forall|g: int, p: int, q: int|
        0 <= g < groups.len() && 0 <= p < groups[g].items@.len() && 0 <= q
            < groups[g].items@.len() implies (#[trigger] groups[g].items@[p]).id < table.len() && (
    #[trigger] groups[g].items@[q]).id < table.len() && mutual(
        table,
        groups[g].items@[p].id as int,
        groups[g].items@[q].id as int,
    ) && (p != q ==> groups[g].items@[p] != groups[g].items@[q]) by {
        let l = leaders[g];
        let items = groups[g].items@;
        assert(is_group_of(table, items, l));
        let a = items[p].id as int;
        let b = items[q].id as int;
        assert(mutual(table, l, a) && mutual(table, l, b));
        assert(related(table, a, l) && related(table, l, b));
        assert(related(table, b, l) && related(table, l, a));
        if p < q {
            assert(items[p].id < items[q].id);
        } else if q < p {
            assert(items[q].id < items[p].id);
        }
    }
    assert forall|g: int, h: int, p: int, q: int|
        0 <= g < h < groups.len() && 0 <= p < groups[g].items@.len() && 0 <= q
            < groups[h].items@.len() implies !related(
        table,
        (#[trigger] groups[g].items@[p]).id as int,
        (#[trigger] groups[h].items@[q]).id as int,
    ) by {
        let lg = leaders[g];
        let lh = leaders[h];
        let a = groups[g].items@[p].id as int;
        let b = groups[h].items@[q].id as int;
        assert(is_group_of(table, groups[g].items@, lg));
        assert(is_group_of(table, groups[h].items@, lh));
        assert(mutual(table, lg, a) && mutual(table, lh, b));
        if related(table, a, b) {
            assert(related(table, lg, a) && related(table, a, b));
            assert(related(table, lg, b) && related(table, b, lh));
            assert(related(table, lg, lh));
            lemma_rank_of_related(table, n, lg, lh);
            assert(before(table, lg, rank(table, lh) as int, lh));
            assert(related(table, lh, lg));
            assert(mutual(table, lh, lg));
            assert(is_leader(table, lh));
            assert(false);
        }
    }
}

/// How many entries of a row hold.
fn row_count(row: &Vec<bool>) -> (r: usize)
    ensures
        r == count_true(row@, row@.len() as int),
{
    let mut r: usize = 0;
    let mut j: usize = 0;
    while j < row.len()
        invariant
            j <= row.len(),
            r == count_true(row@, j as int),
            r <= j,
        decreases row.len() - j,
    {
        if row[j] {
            r = r + 1;
        }
        j = j + 1;
    }
    r
}

/// Whether a member is the first of those it is mutually related to.
fn leads(table: &Vec<Vec<bool>>, l: usize) -> (r: bool)
    requires
        square(rows(table@), rows(table@).len() as int),
        l < rows(table@).len(),
    ensures
        r == is_leader(rows(table@), l as int),
{
    let mut j: usize = 0;
    while j < l
        invariant
            j <= l,
            l < rows(table@).len(),
            square(rows(table@), rows(table@).len() as int),
            forall|k: int| 0 <= k < j ==> !#[trigger] mutual(rows(table@), l as int, k),
        decreases l - j,
    {
        assert(rows(table@)[l as int] == table@[l as int]@ && rows(table@)[j as int] == table@[j as int]@);
        if table[l][j] && table[j][l] {
            assert(mutual(rows(table@), l as int, j as int));
            return false;
        }
        j = j + 1;
    }
    true
}

/// The members that are mutually related to `l`, in order.
fn members_of(table: &Vec<Vec<bool>>, l: usize) -> (items: Vec<FunctionId>)
    requires
        square(rows(table@), rows(table@).len() as int),
        l < rows(table@).len(),
    ensures
        is_group_of(rows(table@), items@, l as int),
        items@ == members(rows(table@), l as int, table@.len() as int),
{
    let mut items: Vec<FunctionId> = Vec::new();
    let mut x: usize = 0;
    while x < table.len()
        invariant
            x <= rows(table@).len(),
            l < rows(table@).len(),
            items@ == members(rows(table@), l as int, x as int),
            square(rows(table@), rows(table@).len() as int),
            forall|p: int, q: int|
                0 <= p < q < items@.len() ==> (#[trigger] items@[p]).id < (#[trigger] items@[q]).id,
            forall|k: int|
                0 <= k < items@.len() ==> (#[trigger] items@[k]).id < x && mutual(
                    rows(table@),
                    l as int,
                    items@[k].id as int,
                ),
            forall|y: int| 0 <= y < x && #[trigger] mutual(rows(table@), l as int, y) ==> holds(items@, y),
        decreases rows(table@).len() - x,
    {
        assert(rows(table@)[l as int] == table@[l as int]@ && rows(table@)[x as int] == table@[x as int]@);
        if table[l][x] && table[x][l] {
            let ghost earlier = items@;
            items.push(FunctionId { id: x });
            assert(items@[earlier.len() as int].id == x);
            assert forall|y: int| 0 <= y < x + 1 && #[trigger] mutual(rows(table@), l as int, y) implies holds(
                items@,
                y,
            ) by {
                if y < x {
                    assert(holds(earlier, y));
                    let k = choose|k: int| 0 <= k < earlier.len() && #[trigger] earlier[k].id == y;
                    assert(items@[k].id == y);
                } else {
                    assert(items@[earlier.len() as int].id == y);
                }
            }
        }
        x = x + 1;
    }
    items
}

/// The groups of a table that relates each member to those it depends on:
/// the classes of mutually related members, each before every group that
/// depends on it. A member that is related to more members comes later.
#[verifier::loop_isolation(false)]
pub fn group_by_rank(table: &Vec<Vec<bool>>) -> (groups: Vec<DependencyGroup>)
    requires
        preorder(rows(table@), rows(table@).len() as int),
    ensures
        grouped(rows(table@), groups@),
        group_items(groups@) == rank_groups(rows(table@)),
{
    let n = table.len();
    let mut ranks: Vec<usize> = Vec::new();
    let mut r: usize = 0;
    while r < n
        invariant
            r <= n,
            ranks@.len() == r,
            forall|k: int| 0 <= k < r ==> #[trigger] ranks@[k] == rank(rows(table@), k),
        decreases n - r,
    {
        ranks.push(row_count(&table[r]));
        r = r + 1;
    }
    let mut groups: Vec<DependencyGroup> = Vec::new();
    assert(group_items(groups@) =~= Seq::<Seq<FunctionId>>::empty());
    let ghost mut leaders: Seq<int> = Seq::empty();
    proof {
        assert forall|l: int|
            0 <= l < rows(table@).len() && is_leader(rows(table@), l) && #[trigger] before(
                rows(table@),
                l,
                1,
                0,
            ) implies exists|g: int| 0 <= g < leaders.len() && #[trigger] leaders[g] == l by {
            assert(related(rows(table@), l, l));
            lemma_count_positive(rows(table@)[l], n as int, l);
        }
    }
    assert(groups_before(rows(table@), 0, n as int) =~= Seq::<Seq<FunctionId>>::empty());
    assert(groups_before(rows(table@), 1, 0) == groups_before(rows(table@), 0, n as int));
    let mut v: usize = 0;
    while v < n
        invariant
            v <= n,
            groups_made(rows(table@), groups@, leaders, v + 1, 0),
            group_items(groups@) == groups_before(rows(table@), v + 1, 0),
        decreases n - v,
    {
        let target = v + 1;
        let mut i: usize = 0;
        while i < n
            invariant
                i <= n,
                v < n,
                target == v + 1,
                groups_made(rows(table@), groups@, leaders, target as int, i as int),
                group_items(groups@) == groups_before(rows(table@), target as int, i as int),
            decreases n - i,
        {
            if ranks[i] == target && leads(table, i) {
                let items = members_of(table, i);
                let ghost earlier = groups@;
                let ghost earlier_leaders = leaders;
                let ghost earlier_items = group_items(groups@);
                groups.push(DependencyGroup { items });
                assert(ranks@[i as int] == rank(rows(table@), i as int));
                assert(group_items(groups@) =~= earlier_items.push(items@));
                proof {
                    leaders = leaders.push(i as int);
                    assert forall|l: int|
                        0 <= l < rows(table@).len() && is_leader(rows(table@), l) && #[trigger] before(
                            rows(table@),
                            l,
                            target as int,
                            i + 1,
                        ) implies exists|g: int| 0 <= g < leaders.len() && #[trigger] leaders[g] == l by {
                        if l == i {
                            assert(leaders[earlier_leaders.len() as int] == l);
                        } else {
                            assert(before(rows(table@), l, target as int, i as int));
                            let g = choose|g: int|
                                0 <= g < earlier_leaders.len() && #[trigger] earlier_leaders[g] == l;
                            assert(leaders[g] == l);
                        }
                    }
                    assert forall|g: int|
                        0 <= g < leaders.len() implies 0 <= #[trigger] leaders[g] < rows(table@).len()
                        && is_leader(rows(table@), leaders[g]) && before(rows(table@), leaders[g], target as int, i + 1)
                        && is_group_of(rows(table@), groups@[g].items@, leaders[g]) by {
                        if g < earlier_leaders.len() {
                            assert(leaders[g] == earlier_leaders[g]);
                            assert(groups@[g] == earlier[g]);
                        }
                    }
                    assert forall|g: int, h: int| 0 <= g < h < leaders.len() implies before(
                        rows(table@),
                        #[trigger] leaders[g],
                        rank(rows(table@), #[trigger] leaders[h]) as int,
                        leaders[h],
                    ) by {
                        if h < earlier_leaders.len() {
                            assert(leaders[g] == earlier_leaders[g]);
                            assert(leaders[h] == earlier_leaders[h]);
                        } else {
                            assert(leaders[g] == earlier_leaders[g]);
                            assert(before(rows(table@), earlier_leaders[g], target as int, i as int));
                        }
                    }
                }
            } else {
                proof {
                    assert forall|l: int|
                        0 <= l < rows(table@).len() && is_leader(rows(table@), l) && #[trigger] before(
                            rows(table@),
                            l,
                            target as int,
                            i + 1,
                        ) implies exists|g: int| 0 <= g < leaders.len() && #[trigger] leaders[g] == l by {
                        assert(ranks@[i as int] == rank(rows(table@), i as int));
                        assert(before(rows(table@), l, target as int, i as int));
                    }
                }
            }
            i = i + 1;
        }
        proof {
            assert forall|l: int|
                0 <= l < rows(table@).len() && is_leader(rows(table@), l) && #[trigger] before(
                    rows(table@),
                    l,
                    target + 1,
                    0,
                ) implies exists|g: int| 0 <= g < leaders.len() && #[trigger] leaders[g] == l by {
                assert(before(rows(table@), l, target as int, n as int));
            }
        }
        v = v + 1;
    }
    proof {
        lemma_groups_made(rows(table@), n as int, groups@, leaders);
    }
    groups
}

/// The lists of a list of lists.
pub open spec fn lists(edges: Seq<Vec<usize>>) -> Seq<Seq<usize>> {
    Seq::new(edges.len(), |i: int| edges[i]@)
}

/// Whether `edges` lists, for each of `n` members, members below `n`.
pub open spec fn graph(edges: Seq<Seq<usize>>, n: int) -> bool {
    edges.len() == n && forall|a: int, k: int|
        0 <= a < n && 0 <= k < edges[a].len() ==> (#[trigger] edges[a][k]) < n
}

/// Whether a chain of at most `steps` edges leads from `a` to `b`.
pub open spec fn within(edges: Seq<Seq<usize>>, a: int, b: int, steps: nat) -> bool
    decreases steps,
{
    a == b || (steps > 0 && exists|k: int|
        0 <= k < edges[a].len() && within(
            edges,
            (#[trigger] edges[a][k]) as int,
            b,
            (steps - 1) as nat,
        ))
}

/// Whether a chain of edges leads from `a` to `b`.
pub open spec fn reaches(edges: Seq<Seq<usize>>, a: int, b: int) -> bool {
    exists|steps: nat| within(edges, a, b, steps)
}

/// A chain of at most `steps` edges is one of at most `more`.
pub proof fn lemma_within_more(edges: Seq<Seq<usize>>, a: int, b: int, steps: nat, more: nat)
    requires
        within(edges, a, b, steps),
        steps <= more,
    ensures
        within(edges, a, b, more),
    decreases steps,
{
    if a != b {
        let k = choose|k: int|
            0 <= k < edges[a].len() && within(
                edges,
                (#[trigger] edges[a][k]) as int,
                b,
                (steps - 1) as nat,
            );
        lemma_within_more(edges, edges[a][k] as int, b, (steps - 1) as nat, (more - 1) as nat);
    }
}

/// Two chains, one behind the other, are a chain.
pub proof fn lemma_within_chain(
    edges: Seq<Seq<usize>>,
    a: int,
    b: int,
    c: int,
    first: nat,
    second: nat,
)
    requires
        within(edges, a, b, first),
        within(edges, b, c, second),
    ensures
        within(edges, a, c, first + second),
    decreases first,
{
    if a == b {
        lemma_within_more(edges, a, c, second, first + second);
    } else {
        let k = choose|k: int|
            0 <= k < edges[a].len() && within(
                edges,
                (#[trigger] edges[a][k]) as int,
                b,
                (first - 1) as nat,
            );
        lemma_within_chain(edges, edges[a][k] as int, b, c, (first - 1) as nat, second);
        assert((first - 1) as nat + second == (first + second - 1) as nat);
    }
}

/// Every member reaches itself, and what is reached from what it reaches.
pub proof fn lemma_reaches_is_a_preorder(edges: Seq<Seq<usize>>, a: int, b: int, c: int)
    ensures
        reaches(edges, a, a),
        reaches(edges, a, b) && reaches(edges, b, c) ==> reaches(edges, a, c),
{
    assert(within(edges, a, a, 0));
    if reaches(edges, a, b) && reaches(edges, b, c) {
        let first = choose|steps: nat| within(edges, a, b, steps);
        let second = choose|steps: nat| within(edges, b, c, steps);
        lemma_within_chain(edges, a, b, c, first, second);
    }
}

/// What is reached reaches the ends of its edges.
pub proof fn lemma_reaches_step(edges: Seq<Seq<usize>>, a: int, v: int, k: int)
    requires
        reaches(edges, a, v),
        0 <= k < edges[v].len(),
    ensures
        reaches(edges, a, edges[v][k] as int),
{
    let w = edges[v][k] as int;
    assert(within(edges, w, w, 0));
    assert(within(edges, v, w, 1));
    lemma_reaches_is_a_preorder(edges, a, v, w);
}

/// Whether every edge from `x` ends in a member that `seen` holds.
pub open spec fn closed(edges: Seq<Seq<usize>>, seen: Seq<bool>, x: int) -> bool {
    forall|k: int| 0 <= k < edges[x].len() ==> seen[(#[trigger] edges[x][k]) as int]
}

/// Whether `x` is on the stack.
pub open spec fn on_stack(stack: Seq<usize>, x: int) -> bool {
    exists|p: int| 0 <= p < stack.len() && #[trigger] stack[p] == x
}

/// Where every member that `seen` holds is closed, `seen` holds what its
/// members reach.
pub proof fn lemma_closed_holds_reached(
    edges: Seq<Seq<usize>>,
    n: int,
    seen: Seq<bool>,
    a: int,
    b: int,
    steps: nat,
)
    requires
        graph(edges, n),
        seen.len() == n,
        forall|x: int| 0 <= x < n && seen[x] ==> #[trigger] closed(edges, seen, x),
        0 <= a < n,
        seen[a],
        within(edges, a, b, steps),
    ensures
        0 <= b < n,
        seen[b],
    decreases steps,
{
    if a != b {
        let k = choose|k: int|
            0 <= k < edges[a].len() && within(
                edges,
                (#[trigger] edges[a][k]) as int,
                b,
                (steps - 1) as nat,
            );
        assert(closed(edges, seen, a));
        lemma_closed_holds_reached(edges, n, seen, edges[a][k] as int, b, (steps - 1) as nat);
    }
}

/// Setting an entry that does not hold makes the row hold once more.
pub proof fn lemma_count_set(row: Seq<bool>, upto: int, x: int)
    requires
        0 <= x < row.len(),
        0 <= upto <= row.len(),
        !row[x],
    ensures
        count_true(row.update(x, true), upto) == count_true(row, upto) + if x < upto {
            1nat
        } else {
            0nat
        },
        count_true(row, upto) <= upto,
    decreases upto,
{
    if upto > 0 {
        lemma_count_set(row, upto - 1, x);
    }
}

/// For every two of the members of a graph, whether the first reaches the
/// second.
pub open spec fn reach_table(edges: Seq<Seq<usize>>) -> Seq<Seq<bool>> {
    Seq::new(edges.len(), |a: int| Seq::new(edges.len(), |b: int| reaches(edges, a, b)))
}

/// The members that `start` reaches.
#[verifier::loop_isolation(false)]
fn reach_row(edges: &Vec<Vec<usize>>, start: usize) -> (row: Vec<bool>)
    requires
        graph(lists(edges@), lists(edges@).len() as int),
        start < lists(edges@).len(),
    ensures
        row@.len() == lists(edges@).len(),
        forall|j: int| 0 <= j < lists(edges@).len() ==> #[trigger] row@[j] == reaches(lists(edges@), start as int, j),
{
    let n = edges.len();
    let mut seen: Vec<bool> = Vec::new();
    let mut i: usize = 0;
    while i < n
        invariant
            i <= n,
            seen@.len() == i,
            forall|x: int| 0 <= x < i ==> !#[trigger] seen@[x],
        decreases n - i,
    {
        seen.push(false);
        i = i + 1;
    }
    proof {
        lemma_reaches_is_a_preorder(lists(edges@), start as int, start as int, start as int);
    }
    seen.set(start, true);
    proof {
        lemma_count_of_part(seen@, seen@, n as int);
    }
    let mut stack: Vec<usize> = Vec::new();
    stack.push(start);
    assert(stack@[0] == start);
    assert(on_stack(stack@, start as int));
    while stack.len() > 0
        invariant
            seen@.len() == n,
            count_true(seen@, n as int) <= n,
            forall|p: int| 0 <= p < stack@.len() ==> (#[trigger] stack@[p]) < n && seen@[stack@[p] as int],
            forall|x: int| 0 <= x < n && #[trigger] seen@[x] ==> reaches(lists(edges@), start as int, x),
            seen@[start as int],
            forall|x: int|
                0 <= x < n && seen@[x] ==> on_stack(stack@, x) || #[trigger] closed(lists(edges@), seen@, x),
        decreases n - count_true(seen@, n as int) + stack@.len(),
    {
        let ghost before = stack@;
        let ghost measure = n - count_true(seen@, n as int) + stack@.len();
        let v = stack[stack.len() - 1];
        stack.pop();
        assert forall|x: int| 0 <= x < n && seen@[x] && x != v implies on_stack(stack@, x)
            || #[trigger] closed(lists(edges@), seen@, x) by {
            if on_stack(before, x) {
                let p = choose|p: int| 0 <= p < before.len() && #[trigger] before[p] == x;
                assert(stack@[p] == x);
            }
        }
        let mut k: usize = 0;
        while k < edges[v].len()
            invariant
                k <= lists(edges@)[v as int].len(),
                v < n,
                seen@.len() == n,
                seen@[v as int],
                seen@[start as int],
                count_true(seen@, n as int) <= n,
                n - count_true(seen@, n as int) + stack@.len() == measure - 1,
                forall|p: int|
                    0 <= p < stack@.len() ==> (#[trigger] stack@[p]) < n && seen@[stack@[p] as int],
                forall|x: int| 0 <= x < n && #[trigger] seen@[x] ==> reaches(lists(edges@), start as int, x),
                forall|x: int|
                    0 <= x < n && seen@[x] && x != v ==> on_stack(stack@, x) || #[trigger] closed(
                        lists(edges@),
                        seen@,
                        x,
                    ),
                forall|q: int| 0 <= q < k ==> seen@[(#[trigger] lists(edges@)[v as int][q]) as int],
            decreases lists(edges@)[v as int].len() - k,
        {
            let w = edges[v][k];
            if !seen[w] {
                let ghost seen_before = seen@;
                let ghost stack_before = stack@;
                proof {
                    lemma_count_set(seen@, n as int, w as int);
                    lemma_reaches_step(lists(edges@), start as int, v as int, k as int);
                }
                seen.set(w, true);
                stack.push(w);
                proof {
                    lemma_count_of_part(seen@, seen@, n as int);
                }
                assert(stack@[stack_before.len() as int] == w);
                assert forall|x: int| 0 <= x < n && seen@[x] && x != v implies on_stack(stack@, x)
                    || #[trigger] closed(lists(edges@), seen@, x) by {
                    if x == w {
                        assert(on_stack(stack@, x));
                    } else if on_stack(stack_before, x) {
                        let p = choose|p: int|
                            0 <= p < stack_before.len() && #[trigger] stack_before[p] == x;
                        assert(stack@[p] == x);
                    } else {
                        assert(closed(lists(edges@), seen_before, x));
                    }
                }
            }
            k = k + 1;
        }
        assert(closed(lists(edges@), seen@, v as int));
    }
    proof {
        assert forall|j: int| 0 <= j < n implies #[trigger] seen@[j] == reaches(
            lists(edges@),
            start as int,
            j,
        ) by {
            if reaches(lists(edges@), start as int, j) {
                let steps = choose|steps: nat| within(lists(edges@), start as int, j, steps);
                assert forall|x: int| 0 <= x < n && seen@[x] implies #[trigger] closed(
                    lists(edges@),
                    seen@,
                    x,
                ) by {
                    if on_stack(stack@, x) {
                    }
                }
                lemma_closed_holds_reached(lists(edges@), n as int, seen@, start as int, j, steps);
            }
        }
    }
    seen
}

/// For every two members of a graph, whether the first reaches the second.
#[verifier::loop_isolation(false)]
pub fn reachability(edges: &Vec<Vec<usize>>) -> (table: Vec<Vec<bool>>)
    requires
        graph(lists(edges@), lists(edges@).len() as int),
    ensures
        preorder(rows(table@), lists(edges@).len() as int),
        rows(table@) == reach_table(lists(edges@)),
        forall|a: int, b: int|
            0 <= a < lists(edges@).len() && 0 <= b < lists(edges@).len() ==> #[trigger] related(rows(table@), a, b)
                == reaches(lists(edges@), a, b),
{
    let n = edges.len();
    let mut table: Vec<Vec<bool>> = Vec::new();
    let mut i: usize = 0;
    while i < n
        invariant
            i <= n,
            rows(table@).len() == i,
            forall|a: int| 0 <= a < i ==> (#[trigger] table@[a])@.len() == n,
            forall|a: int, b: int|
                0 <= a < i && 0 <= b < n ==> #[trigger] related(rows(table@), a, b) == reaches(
                    lists(edges@),
                    a,
                    b,
                ),
        decreases n - i,
    {
        let row = reach_row(edges, i);
        let ghost earlier = rows(table@);
        table.push(row);
        assert forall|a: int, b: int| 0 <= a < i + 1 && 0 <= b < n implies #[trigger] related(
            rows(table@),
            a,
            b,
        ) == reaches(lists(edges@), a, b) by {
            if a < i {
                assert(rows(table@)[a] == earlier[a]);
                assert(related(earlier, a, b) == reaches(lists(edges@), a, b));
            } else {
                assert(row@[b] == reaches(lists(edges@), i as int, b));
            }
        }
        i = i + 1;
    }
    proof {
        assert forall|a: int| 0 <= a < n implies #[trigger] rows(table@)[a] == reach_table(
            lists(edges@),
        )[a] by {
            assert forall|b: int| 0 <= b < n implies #[trigger] rows(table@)[a][b] == reaches(
                lists(edges@),
                a,
                b,
            ) by {
                assert(related(rows(table@), a, b) == reaches(lists(edges@), a, b));
            }
            assert(rows(table@)[a] =~= reach_table(lists(edges@))[a]);
        }
        assert(rows(table@) =~= reach_table(lists(edges@)));
        assert forall|a: int| 0 <= a < n implies #[trigger] related(rows(table@), a, a) by {
            lemma_reaches_is_a_preorder(lists(edges@), a, a, a);
        }
        assert forall|a: int, b: int, c: int|
            0 <= a < n && 0 <= b < n && 0 <= c < n && #[trigger] related(rows(table@), a, b)
                && #[trigger] related(rows(table@), b, c) implies related(rows(table@), a, c) by {
            lemma_reaches_is_a_preorder(lists(edges@), a, b, c);
        }
    }
    table
}

/// An expression or a pattern.
#[derive(Debug, Clone, Copy)]
pub enum Node {
    Expr(ExprId),
    Pattern(PatternId),
}

/// A list of expressions as nodes.
pub open spec fn expr_nodes(ids: Seq<ExprId>) -> Seq<Node> {
    Seq::new(ids.len(), |i: int| Node::Expr(ids[i]))
}

/// A list of patterns as nodes.
pub open spec fn pattern_nodes(ids: Seq<PatternId>) -> Seq<Node> {
    Seq::new(ids.len(), |i: int| Node::Pattern(ids[i]))
}

/// The expressions of the items of a record expression as nodes.
pub open spec fn item_nodes(items: Seq<RecordFieldValueExpr>) -> Seq<Node> {
    Seq::new(items.len(), |i: int| Node::Expr(items[i].expr_id))
}

/// Of each of the first `upto` cases the pattern and the body, as nodes.
pub open spec fn case_nodes(cases: Seq<Case>, upto: int) -> Seq<Node>
    decreases upto,
{
    if upto <= 0 {
        Seq::empty()
    } else {
        case_nodes(cases, upto - 1).push(Node::Pattern(cases[upto - 1].pattern_id)).push(
            Node::Expr(cases[upto - 1].body),
        )
    }
}

/// The expressions of the items of the first `upto` updates, as nodes.
pub open spec fn update_nodes(updates: Seq<RecordUpdateInfo>, upto: int) -> Seq<Node>
    decreases upto,
{
    if upto <= 0 {
        Seq::empty()
    } else {
        update_nodes(updates, upto - 1) + item_nodes(updates[upto - 1].items@)
    }
}

/// The expressions and patterns that an expression holds.
pub open spec fn expr_parts(expr: Expr) -> Seq<Node> {
    match expr {
        Expr::StaticFunctionCall(_, args) => expr_nodes(args@),
        Expr::ClassFunctionCall(_, args) => expr_nodes(args@),
        Expr::DynamicFunctionCall(function_expr, args) => seq![Node::Expr(function_expr)]
            + expr_nodes(args@),
        Expr::If(cond, true_branch, false_branch) => seq![
            Node::Expr(cond),
            Node::Expr(true_branch),
            Node::Expr(false_branch),
        ],
        Expr::Tuple(items) => expr_nodes(items@),
        Expr::List(items) => expr_nodes(items@),
        Expr::Do(items) => expr_nodes(items@),
        Expr::Bind(pattern_id, rhs) => seq![Node::Pattern(pattern_id), Node::Expr(rhs)],
        Expr::FieldAccess(_, receiver) => seq![Node::Expr(receiver)],
        Expr::TupleFieldAccess(_, tuple) => seq![Node::Expr(tuple)],
        Expr::Formatter(_, args) => expr_nodes(args@),
        Expr::CaseOf(scrutinee, cases) => seq![Node::Expr(scrutinee)] + case_nodes(
            cases@,
            cases@.len() as int,
        ),
        Expr::RecordInitialization(_, items) => item_nodes(items@),
        Expr::RecordUpdate(record_expr, updates) => seq![Node::Expr(record_expr)] + update_nodes(
            updates@,
            updates@.len() as int,
        ),
        _ => Seq::empty(),
    }
}

/// The patterns and expressions that a pattern holds.
pub open spec fn pattern_parts(pattern: Pattern) -> Seq<Node> {
    match pattern {
        Pattern::Tuple(items) => pattern_nodes(items@),
        Pattern::Record(_, items) => pattern_nodes(items@),
        Pattern::Variant(_, _, items) => pattern_nodes(items@),
        Pattern::Guarded(inner, guard) => seq![Node::Pattern(inner), Node::Expr(guard)],
        Pattern::Typed(inner, _) => seq![Node::Pattern(inner)],
        _ => Seq::empty(),
    }
}

/// The function that an expression calls by name: the function of a static
/// call, or the default implementation of the class member of a class call.
pub open spec fn called(program: Declarations, expr: Expr) -> Option<FunctionId> {
    match expr {
        Expr::StaticFunctionCall(id, _) => Some(id),
        Expr::ClassFunctionCall(member, _) => if program.class_members.contains(member.id) {
            program.class_members.item(member.id).default_implementation
        } else {
            None
        },
        _ => None,
    }
}

/// The functions called by the nodes of `work` and by what they hold,
/// behind `found`. The last node of `work` is taken first, and what it
/// holds is taken before the rest. `fuel` bounds the number of nodes taken.
pub open spec fn calls(program: Declarations, work: Seq<Node>, found: Seq<FunctionId>, fuel: nat) -> Seq<
    FunctionId,
>
    decreases fuel,
{
    if work.len() == 0 || fuel == 0 {
        found
    } else {
        let rest = work.drop_last();
        let left = (fuel - 1) as nat;
        match work.last() {
            Node::Expr(id) => if program.exprs.contains(id.id) {
                let expr = program.exprs.item(id.id).item;
                calls(
                    program,
                    rest + expr_parts(expr),
                    match called(program, expr) {
                        Some(f) => found.push(f),
                        None => found,
                    },
                    left,
                )
            } else {
                calls(program, rest, found, left)
            },
            Node::Pattern(id) => if program.patterns.contains(id.id) {
                calls(
                    program,
                    rest + pattern_parts(program.patterns.item(id.id).item),
                    found,
                    left,
                )
            } else {
                calls(program, rest, found, left)
            },
        }
    }
}

/// As many nodes as the program has expressions and patterns: enough to
/// take each of them once.
pub open spec fn walk_fuel(program: Declarations) -> nat {
    if program.exprs.allocated() + program.patterns.allocated() > usize::MAX {
        usize::MAX as nat
    } else {
        program.exprs.allocated() + program.patterns.allocated()
    }
}

/// The body of the function with the number `i`, where it has one.
pub open spec fn body_of(program: Declarations, i: int) -> Option<ExprId> {
    if 0 <= i < program.functions.allocated() && program.functions.contains(i as usize) {
        match program.functions.item(i as usize).info {
            FunctionInfo::NamedFunction(info) => info.body,
            FunctionInfo::Lambda(info) => Some(info.body),
            _ => None,
        }
    } else {
        None
    }
}

/// The numbers below `n` of the first `upto` functions of a list.
pub open spec fn targets(found: Seq<FunctionId>, n: int, upto: int) -> Seq<usize>
    decreases upto,
{
    if upto <= 0 {
        Seq::empty()
    } else if found[upto - 1].id < n {
        targets(found, n, upto - 1).push(found[upto - 1].id)
    } else {
        targets(found, n, upto - 1)
    }
}

/// The functions of the program that the body of the function with the
/// number `i` calls by name, in the order in which the calls are met.
pub open spec fn callees(program: Declarations, i: int) -> Seq<usize> {
    match body_of(program, i) {
        Some(body) => {
            let found = calls(program, seq![Node::Expr(body)], Seq::empty(), walk_fuel(program));
            targets(found, program.functions.allocated() as int, found.len() as int)
        },
        None => Seq::empty(),
    }
}

/// The call graph of a program: for each function, the functions that its
/// body calls by name.
pub open spec fn call_graph(program: Declarations) -> Seq<Seq<usize>> {
    Seq::new(program.functions.allocated(), |i: int| callees(program, i))
}

/// Whether the function with the number `a` depends on the one with the
/// number `b`: it is that function, or calls it, directly or through
/// others.
pub open spec fn depends_on(program: Declarations, a: int, b: int) -> bool {
    reaches(call_graph(program), a, b)
}

/// The dependency groups of a program: the classes of functions that
/// depend on each other, a class before another where its first function
/// depends on fewer functions, or on as many and comes first.
pub open spec fn dependency_groups_of(program: Declarations) -> Seq<Seq<FunctionId>> {
    rank_groups(reach_table(call_graph(program)))
}

/// Whether `groups` are the dependency groups of the program, each before
/// the groups that depend on it: every function is in a group; the
/// functions of a group depend on each other, and each is there once; and
/// no function depends on a function of a later group.
pub open spec fn dependency_ordered(program: Declarations, groups: Seq<DependencyGroup>) -> bool {
    &&& forall|a: int| 0 <= a < program.functions.allocated() ==> #[trigger] has_group(groups, a)
    &&& forall|g: int, p: int, q: int|
        0 <= g < groups.len() && 0 <= p < groups[g].items@.len() && 0 <= q < groups[g].items@.len()
            ==> (#[trigger] groups[g].items@[p]).id < program.functions.allocated() && (
        #[trigger] groups[g].items@[q]).id < program.functions.allocated() && depends_on(
            program,
            groups[g].items@[p].id as int,
            groups[g].items@[q].id as int,
        ) && (p != q ==> groups[g].items@[p] != groups[g].items@[q])
    &&& forall|g: int, h: int, p: int, q: int|
        0 <= g < h < groups.len() && 0 <= p < groups[g].items@.len() && 0 <= q
            < groups[h].items@.len() ==> !depends_on(
            program,
            (#[trigger] groups[g].items@[p]).id as int,
            (#[trigger] groups[h].items@[q]).id as int,
        )
}

/// Puts a list of expressions on the stack.
fn push_exprs(stack: &mut Vec<Node>, ids: &Vec<ExprId>)
    ensures
        final(stack)@ == old(stack)@ + expr_nodes(ids@),
{
    let mut i: usize = 0;
    assert(stack@ =~= old(stack)@ + expr_nodes(ids@).take(0));
    while i < ids.len()
        invariant
            i <= ids.len(),
            stack@ == old(stack)@ + expr_nodes(ids@).take(i as int),
        decreases ids.len() - i,
    {
        stack.push(Node::Expr(ids[i]));
        assert(stack@ =~= old(stack)@ + expr_nodes(ids@).take(i + 1));
        i = i + 1;
    }
    assert(expr_nodes(ids@).take(ids@.len() as int) =~= expr_nodes(ids@));
}

/// Puts a list of patterns on the stack.
fn push_patterns(stack: &mut Vec<Node>, ids: &Vec<PatternId>)
    ensures
        final(stack)@ == old(stack)@ + pattern_nodes(ids@),
{
    let mut i: usize = 0;
    assert(stack@ =~= old(stack)@ + pattern_nodes(ids@).take(0));
    while i < ids.len()
        invariant
            i <= ids.len(),
            stack@ == old(stack)@ + pattern_nodes(ids@).take(i as int),
        decreases ids.len() - i,
    {
        stack.push(Node::Pattern(ids[i]));
        assert(stack@ =~= old(stack)@ + pattern_nodes(ids@).take(i + 1));
        i = i + 1;
    }
    assert(pattern_nodes(ids@).take(ids@.len() as int) =~= pattern_nodes(ids@));
}

/// Puts the expressions of the items of a record expression on the stack.
fn push_items(stack: &mut Vec<Node>, items: &Vec<RecordFieldValueExpr>)
    ensures
        final(stack)@ == old(stack)@ + item_nodes(items@),
{
    let mut i: usize = 0;
    assert(stack@ =~= old(stack)@ + item_nodes(items@).take(0));
    while i < items.len()
        invariant
            i <= items.len(),
            stack@ == old(stack)@ + item_nodes(items@).take(i as int),
        decreases items.len() - i,
    {
        stack.push(Node::Expr(items[i].expr_id));
        assert(stack@ =~= old(stack)@ + item_nodes(items@).take(i + 1));
        i = i + 1;
    }
    assert(item_nodes(items@).take(items@.len() as int) =~= item_nodes(items@));
}

/// Puts what an expression holds on the stack.
#[verifier::loop_isolation(false)]
fn push_expr_parts(stack: &mut Vec<Node>, expr: &Expr)
    ensures
        final(stack)@ == old(stack)@ + expr_parts(*expr),
{
    match expr {
        Expr::StaticFunctionCall(_, args) => push_exprs(stack, args),
        Expr::ClassFunctionCall(_, args) => push_exprs(stack, args),
        Expr::DynamicFunctionCall(function_expr, args) => {
            stack.push(Node::Expr(*function_expr));
            push_exprs(stack, args);
            assert(stack@ =~= old(stack)@ + (seq![Node::Expr(*function_expr)] + expr_nodes(args@)));
        },
        Expr::If(cond, true_branch, false_branch) => {
            stack.push(Node::Expr(*cond));
            stack.push(Node::Expr(*true_branch));
            stack.push(Node::Expr(*false_branch));
            assert(stack@ =~= old(stack)@ + seq![
                Node::Expr(*cond),
                Node::Expr(*true_branch),
                Node::Expr(*false_branch),
            ]);
        },
        Expr::Tuple(items) => push_exprs(stack, items),
        Expr::List(items) => push_exprs(stack, items),
        Expr::Do(items) => push_exprs(stack, items),
        Expr::Bind(pattern_id, rhs) => {
            stack.push(Node::Pattern(*pattern_id));
            stack.push(Node::Expr(*rhs));
            assert(stack@ =~= old(stack)@ + seq![Node::Pattern(*pattern_id), Node::Expr(*rhs)]);
        },
        Expr::FieldAccess(_, receiver) => {
            stack.push(Node::Expr(*receiver));
            assert(stack@ =~= old(stack)@ + seq![Node::Expr(*receiver)]);
        },
        Expr::TupleFieldAccess(_, tuple) => {
            stack.push(Node::Expr(*tuple));
            assert(stack@ =~= old(stack)@ + seq![Node::Expr(*tuple)]);
        },
        Expr::Formatter(_, args) => push_exprs(stack, args),
        Expr::CaseOf(scrutinee, cases) => {
            stack.push(Node::Expr(*scrutinee));
            let ghost base = old(stack)@ + seq![Node::Expr(*scrutinee)];
            assert(stack@ =~= base + case_nodes(cases@, 0));
            let mut i: usize = 0;
            while i < cases.len()
                invariant
                    i <= cases.len(),
                    stack@ == base + case_nodes(cases@, i as int),
                decreases cases.len() - i,
            {
                stack.push(Node::Pattern(cases[i].pattern_id));
                stack.push(Node::Expr(cases[i].body));
                assert(stack@ =~= base + case_nodes(cases@, i + 1));
                i = i + 1;
            }
            assert(stack@ =~= old(stack)@ + (seq![Node::Expr(*scrutinee)] + case_nodes(
                cases@,
                cases@.len() as int,
            )));
        },
        Expr::RecordInitialization(_, items) => push_items(stack, items),
        Expr::RecordUpdate(record_expr, updates) => {
            stack.push(Node::Expr(*record_expr));
            let ghost base = old(stack)@ + seq![Node::Expr(*record_expr)];
            assert(stack@ =~= base + update_nodes(updates@, 0));
            let mut i: usize = 0;
            while i < updates.len()
                invariant
                    i <= updates.len(),
                    stack@ == base + update_nodes(updates@, i as int),
                decreases updates.len() - i,
            {
                push_items(stack, &updates[i].items);
                assert(stack@ =~= base + update_nodes(updates@, i + 1));
                i = i + 1;
            }
            assert(stack@ =~= old(stack)@ + (seq![Node::Expr(*record_expr)] + update_nodes(
                updates@,
                updates@.len() as int,
            )));
        },
        _ => {
            assert(stack@ =~= old(stack)@ + Seq::<Node>::empty());
        },
    }
}

/// Puts what a pattern holds on the stack.
fn push_pattern_parts(stack: &mut Vec<Node>, pattern: &Pattern)
    ensures
        final(stack)@ == old(stack)@ + pattern_parts(*pattern),
{
    match pattern {
        Pattern::Tuple(items) => push_patterns(stack, items),
        Pattern::Record(_, items) => push_patterns(stack, items),
        Pattern::Variant(_, _, items) => push_patterns(stack, items),
        Pattern::Guarded(inner, guard) => {
            stack.push(Node::Pattern(*inner));
            stack.push(Node::Expr(*guard));
            assert(stack@ =~= old(stack)@ + seq![Node::Pattern(*inner), Node::Expr(*guard)]);
        },
        Pattern::Typed(inner, _) => {
            stack.push(Node::Pattern(*inner));
            assert(stack@ =~= old(stack)@ + seq![Node::Pattern(*inner)]);
        },
        _ => {
            assert(stack@ =~= old(stack)@ + Seq::<Node>::empty());
        },
    }
}

/// The function that an expression calls by name.
fn called_by(program: &Program, expr: &Expr) -> (r: Option<FunctionId>)
    ensures
        r == called(program.declarations(), *expr),
{
    match expr {
        Expr::StaticFunctionCall(id, _) => Some(*id),
        Expr::ClassFunctionCall(member, _) => match program.class_members.get(member.id) {
            Some(class_member) => class_member.default_implementation,
            None => None,
        },
        _ => None,
    }
}

/// The functions that an expression and what it holds call by name.
#[verifier::loop_isolation(false)]
pub fn collect_calls(program: &Program, body: ExprId) -> (found: Vec<FunctionId>)
    ensures
        found@ == calls(
            program.declarations(),
            seq![Node::Expr(body)],
            Seq::empty(),
            walk_fuel(program.declarations()),
        ),
{
    let mut fuel: usize = match program.exprs.len().checked_add(program.patterns.len()) {
        Some(sum) => sum,
        None => usize::MAX,
    };
    let mut found: Vec<FunctionId> = Vec::new();
    let mut stack: Vec<Node> = Vec::new();
    stack.push(Node::Expr(body));
    assert(stack@ =~= seq![Node::Expr(body)]);
    let ghost goal = calls(
        program.declarations(),
        seq![Node::Expr(body)],
        Seq::empty(),
        walk_fuel(program.declarations()),
    );
    while stack.len() > 0 && fuel > 0
        invariant
            goal == calls(program.declarations(), stack@, found@, fuel as nat),
        decreases fuel,
    {
        let ghost work = stack@;
        let node = stack[stack.len() - 1];
        stack.pop();
        assert(stack@ =~= work.drop_last());
        fuel = fuel - 1;
        match node {
            Node::Expr(id) => match program.exprs.get(id.id) {
                Some(info) => {
                    push_expr_parts(&mut stack, &info.item);
                    match called_by(program, &info.item) {
                        Some(f) => {
                            found.push(f);
                        },
                        None => {},
                    }
                },
                None => {},
            },
            Node::Pattern(id) => match program.patterns.get(id.id) {
                Some(info) => {
                    push_pattern_parts(&mut stack, &info.item);
                },
                None => {},
            },
        }
    }
    found
}

/// The functions of the program that a function calls by name.
#[verifier::loop_isolation(false)]
fn callees_of(program: &Program, i: usize) -> (r: Vec<usize>)
    requires
        i < program.functions.allocated(),
    ensures
        r@ == callees(program.declarations(), i as int),
        forall|k: int| 0 <= k < r@.len() ==> (#[trigger] r@[k]) < program.functions.allocated(),
{
    let body = match program.functions.get(i) {
        Some(function) => match &function.info {
            FunctionInfo::NamedFunction(info) => info.body,
            FunctionInfo::Lambda(info) => Some(info.body),
            _ => None,
        },
        None => None,
    };
    let mut r: Vec<usize> = Vec::new();
    match body {
        Some(body) => {
            let found = collect_calls(program, body);
            let n = program.functions.len();
            let mut k: usize = 0;
            while k < found.len()
                invariant
                    k <= found.len(),
                    r@ == targets(found@, n as int, k as int),
                    forall|q: int| 0 <= q < r@.len() ==> (#[trigger] r@[q]) < n,
                decreases found.len() - k,
            {
                if found[k].id < n {
                    r.push(found[k].id);
                }
                k = k + 1;
            }
        },
        None => {},
    }
    r
}

/// The call graph of a program.
#[verifier::loop_isolation(false)]
pub fn build_call_graph(program: &Program) -> (edges: Vec<Vec<usize>>)
    ensures
        lists(edges@) == call_graph(program.declarations()),
        graph(lists(edges@), program.functions.allocated() as int),
{
    let n = program.functions.len();
    let mut edges: Vec<Vec<usize>> = Vec::new();
    let mut i: usize = 0;
    while i < n
        invariant
            i <= n,
            edges@.len() == i,
            forall|a: int|
                0 <= a < i ==> (#[trigger] edges@[a])@ == callees(program.declarations(), a),
            forall|a: int, k: int|
                0 <= a < i && 0 <= k < edges@[a]@.len() ==> (#[trigger] edges@[a]@[k]) < n,
        decreases n - i,
    {
        let row = callees_of(program, i);
        edges.push(row);
        i = i + 1;
    }
    assert(lists(edges@) =~= call_graph(program.declarations()));
    edges
}

/// The dependency groups of a program, each before the groups that depend
/// on it.
pub fn dependency_groups(program: &Program) -> (groups: Vec<DependencyGroup>)
    ensures
        group_items(groups@) == dependency_groups_of(program.declarations()),
        dependency_ordered(program.declarations(), groups@),
{
    let edges = build_call_graph(program);
    let table = reachability(&edges);
    let groups = group_by_rank(&table);
    proof {
        let n = program.functions.allocated() as int;
        let d = program.declarations();
        assert(grouped(rows(table@), groups@));
        assert forall|g: int, p: int, q: int|
            0 <= g < groups@.len() && 0 <= p < groups@[g].items@.len() && 0 <= q
                < groups@[g].items@.len() implies (#[trigger] groups@[g].items@[p]).id < n && (
        #[trigger] groups@[g].items@[q]).id < n && depends_on(
            d,
            groups@[g].items@[p].id as int,
            groups@[g].items@[q].id as int,
        ) && (p != q ==> groups@[g].items@[p] != groups@[g].items@[q]) by {
            let a = groups@[g].items@[p].id as int;
            let b = groups@[g].items@[q].id as int;
            assert(mutual(rows(table@), a, b));
            assert(related(rows(table@), a, b) == reaches(lists(edges@), a, b));
        }
        assert forall|g: int, h: int, p: int, q: int|
            0 <= g < h < groups@.len() && 0 <= p < groups@[g].items@.len() && 0 <= q
                < groups@[h].items@.len() implies !depends_on(
            d,
            (#[trigger] groups@[g].items@[p]).id as int,
            (#[trigger] groups@[h].items@[q]).id as int,
        ) by {
            let a = groups@[g].items@[p].id as int;
            let b = groups@[h].items@[q].id as int;
            assert(groups@[g].items@[p].id < n && groups@[g].items@[p].id < n);
            assert(groups@[h].items@[q].id < n && groups@[h].items@[q].id < n);
            assert(!related(rows(table@), a, b));
            assert(related(rows(table@), a, b) == reaches(lists(edges@), a, b));
        }
    }
    groups
}

} // verus!
