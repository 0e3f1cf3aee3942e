//! Schematic types (with variables, the object of inference) and concrete
//! types (without, carried by runtime values), each with its mathematical model.

use crate::ir::class::ClassId;
use crate::ir::data::TypeDefId;
use vstd::prelude::*;

verus! {

#[derive(Debug, Clone, Copy, PartialEq, Eq, PartialOrd, Ord, Structural)]
pub struct TypeId {
    pub id: usize,
}

/// The outer constructor of a type: the key under which instances are filed.
#[derive(Debug, Clone, Copy, PartialEq, Eq, PartialOrd, Ord, Structural)]
pub enum BaseType {
    Tuple,
    Named(TypeDefId),
    Function,
    Generic,
}

/// A schematic type.
#[derive(Debug)]
pub enum Type {
    Tuple(Vec<Type>),
    Named(String, TypeDefId, Vec<Type>),
    Function(Box<Type>, Box<Type>),
    /// A free variable with its class constraints.
    Var(usize, Vec<ClassId>),
    /// A rigid variable from a user signature, with its name and constraints.
    FixedVar(usize, String, Vec<ClassId>),
}

/// The mathematical model of a schematic type.
pub ghost enum TypeModel {
    Tuple(Seq<TypeModel>),
    Named(Seq<char>, TypeDefId, Seq<TypeModel>),
    Function(Box<TypeModel>, Box<TypeModel>),
    Var(usize, Seq<ClassId>),
    FixedVar(usize, Seq<char>, Seq<ClassId>),
}

/// The models of a sequence of types, item by item.
pub open spec fn type_models(items: Seq<Type>) -> Seq<TypeModel>
    decreases items,
{
    Seq::new(items.len(), |i: int| if 0 <= i < items.len() { items[i].model() } else { arbitrary() })
}

impl Type {
    /// The mathematical model of this type.
    pub open spec fn model(&self) -> TypeModel
        decreases self,
    {
        match self {
            Type::Tuple(items) => TypeModel::Tuple(
                type_models(items@),
            ),
            Type::Named(name, id, items) => TypeModel::Named(
                name@,
                *id,
                type_models(items@),
            ),
            Type::Function(from, to) => TypeModel::Function(
                Box::new((**from).model()),
                Box::new((**to).model()),
            ),
            Type::Var(index, constraints) => TypeModel::Var(*index, constraints@),
            Type::FixedVar(index, name, constraints) => TypeModel::FixedVar(
                *index,
                name@,
                constraints@,
            ),
        }
    }
}

impl View for Type {
    type V = TypeModel;

    open spec fn view(&self) -> TypeModel {
        self.model()
    }
}

impl Clone for Type {
    fn clone(&self) -> (r: Type)
        ensures
            r@ == self@,
    {
        self.copy()
    }
}

impl TypeModel {
    /// The outer constructor.
    pub open spec fn base_type(self) -> BaseType {
        match self {
            TypeModel::Tuple(_) => BaseType::Tuple,
            TypeModel::Named(_, id, _) => BaseType::Named(id),
            TypeModel::Function(_, _) => BaseType::Function,
            TypeModel::Var(_, _) => BaseType::Generic,
            TypeModel::FixedVar(_, _, _) => BaseType::Generic,
        }
    }

    /// Whether the type holds no variable, free or rigid.
    pub open spec fn is_concrete(self) -> bool
        decreases self,
    {
        match self {
            TypeModel::Tuple(items) => forall|i: int|
                0 <= i < items.len() ==> (#[trigger] items[i]).is_concrete(),
            TypeModel::Named(_, _, items) => forall|i: int|
                0 <= i < items.len() ==> (#[trigger] items[i]).is_concrete(),
            TypeModel::Function(from, to) => from.is_concrete() && to.is_concrete(),
            TypeModel::Var(_, _) => false,
            TypeModel::FixedVar(_, _, _) => false,
        }
    }

    /// Whether the free variable `index` occurs in the type.
    pub open spec fn occurs(self, index: usize) -> bool
        decreases self,
    {
        match self {
            TypeModel::Tuple(items) => exists|i: int|
                0 <= i < items.len() && (#[trigger] items[i]).occurs(index),
            TypeModel::Named(_, _, items) => exists|i: int|
                0 <= i < items.len() && (#[trigger] items[i]).occurs(index),
            TypeModel::Function(from, to) => from.occurs(index) || to.occurs(index),
            TypeModel::Var(i, _) => i == index,
            TypeModel::FixedVar(_, _, _) => false,
        }
    }

    /// Whether every variable index in the type, free or rigid, is below `bound`.
    pub open spec fn below(self, bound: nat) -> bool
        decreases self,
    {
        match self {
            TypeModel::Tuple(items) => forall|i: int|
                0 <= i < items.len() ==> (#[trigger] items[i]).below(bound),
            TypeModel::Named(_, _, items) => forall|i: int|
                0 <= i < items.len() ==> (#[trigger] items[i]).below(bound),
            TypeModel::Function(from, to) => from.below(bound) && to.below(bound),
            TypeModel::Var(i, _) => i < bound,
            TypeModel::FixedVar(i, _, _) => i < bound,
        }
    }

    /// The number of nodes of the type.
    pub open spec fn size(self) -> nat
        decreases self,
    {
        match self {
            TypeModel::Tuple(items) => 1 + sizes(items, 0),
            TypeModel::Named(_, _, items) => 1 + sizes(items, 0),
            TypeModel::Function(from, to) => 1 + from.size() + to.size(),
            TypeModel::Var(_, _) => 1,
            TypeModel::FixedVar(_, _, _) => 1,
        }
    }

    /// The type with `replacement` in place of each occurrence of the free
    /// variable `index`.
    pub open spec fn subst(self, index: usize, replacement: TypeModel) -> TypeModel
        decreases self,
    {
        match self {
            TypeModel::Tuple(items) => TypeModel::Tuple(
                Seq::new(
                    items.len(),
                    |i: int|
                        if 0 <= i < items.len() {
                            items[i].subst(index, replacement)
                        } else {
                            arbitrary()
                        },
                ),
            ),
            TypeModel::Named(name, id, items) => TypeModel::Named(
                name,
                id,
                Seq::new(
                    items.len(),
                    |i: int|
                        if 0 <= i < items.len() {
                            items[i].subst(index, replacement)
                        } else {
                            arbitrary()
                        },
                ),
            ),
            TypeModel::Function(from, to) => TypeModel::Function(
                Box::new(from.subst(index, replacement)),
                Box::new(to.subst(index, replacement)),
            ),
            TypeModel::Var(i, _) => if i == index {
                replacement
            } else {
                self
            },
            TypeModel::FixedVar(_, _, _) => self,
        }
    }

    /// The type with each rigid variable turned into a free one of the same
    /// index and constraints.
    pub open spec fn remove_fixed(self) -> TypeModel
        decreases self,
    {
        match self {
            TypeModel::Tuple(items) => TypeModel::Tuple(
                Seq::new(
                    items.len(),
                    |i: int|
                        if 0 <= i < items.len() {
                            items[i].remove_fixed()
                        } else {
                            arbitrary()
                        },
                ),
            ),
            TypeModel::Named(name, id, items) => TypeModel::Named(
                name,
                id,
                Seq::new(
                    items.len(),
                    |i: int|
                        if 0 <= i < items.len() {
                            items[i].remove_fixed()
                        } else {
                            arbitrary()
                        },
                ),
            ),
            TypeModel::Function(from, to) => TypeModel::Function(
                Box::new(from.remove_fixed()),
                Box::new(to.remove_fixed()),
            ),
            TypeModel::Var(_, _) => self,
            TypeModel::FixedVar(i, _, constraints) => TypeModel::Var(i, constraints),
        }
    }
}

/// The number of nodes of the items of `items` from position `from` on.
pub open spec fn sizes(items: Seq<TypeModel>, from: int) -> nat
    decreases items, items.len() - from,
{
    if 0 <= from < items.len() {
        items[from].size() + sizes(items, from + 1)
    } else {
        0
    }
}

/// Copies a list of class ids.
pub fn copy_class_ids(ids: &Vec<ClassId>) -> (r: Vec<ClassId>)
    ensures
        r@ == ids@,
{
    let mut r: Vec<ClassId> = Vec::new();
    let mut i: usize = 0;
    while i < ids.len()
        invariant
            i <= ids.len(),
            r@ == ids@.subrange(0, i as int),
        decreases ids.len() - i,
    {
        r.push(ids[i]);
        i = i + 1;
    }
    r
}

impl Type {
    /// A deep copy.
    #[verifier::loop_isolation(false)]
    pub fn copy(&self) -> (r: Type)
        ensures
            r@ == self@,
        decreases self,
    {
        match self {
            Type::Tuple(items) => {
                let mut r: Vec<Type> = Vec::new();
                let mut i: usize = 0;
                while i < items.len()
                    invariant
                        i <= items.len(),
                        r.len() == i,
                        forall|k: int| 0 <= k < i ==> (#[trigger] r@[k]).model() == items@[k].model(),
                    decreases items.len() - i,
                {
                    r.push(items[i].copy());
                    i = i + 1;
                }
                assert(type_models(r@) =~= type_models(items@));
                Type::Tuple(r)
            },
            Type::Named(name, id, items) => {
                let mut r: Vec<Type> = Vec::new();
                let mut i: usize = 0;
                while i < items.len()
                    invariant
                        i <= items.len(),
                        r.len() == i,
                        forall|k: int| 0 <= k < i ==> (#[trigger] r@[k]).model() == items@[k].model(),
                    decreases items.len() - i,
                {
                    r.push(items[i].copy());
                    i = i + 1;
                }
                assert(type_models(r@) =~= type_models(items@));
                Type::Named(name.clone(), *id, r)
            },
            Type::Function(from, to) => Type::Function(Box::new(from.copy()), Box::new(to.copy())),
            Type::Var(index, constraints) => Type::Var(*index, copy_class_ids(constraints)),
            Type::FixedVar(index, name, constraints) => Type::FixedVar(
                *index,
                name.clone(),
                copy_class_ids(constraints),
            ),
        }
    }

    /// Structural equality: the two types have the same model.
    #[verifier::loop_isolation(false)]
    pub fn equals(&self, other: &Type) -> (r: bool)
        ensures
            r == (self@ == other@),
        decreases self,
    {
        match (self, other) {
            (Type::Tuple(xs), Type::Tuple(ys)) => {
                if xs.len() != ys.len() {
                    assert(type_models(xs@).len() != type_models(ys@).len());
                    return false;
                }
                let mut i: usize = 0;
                while i < xs.len()
                    invariant
                        i <= xs.len(),
                        xs.len() == ys.len(),
                        forall|k: int| 0 <= k < i ==> (#[trigger] xs@[k]).model() == ys@[k].model(),
                    decreases xs.len() - i,
                {
                    if !xs[i].equals(&ys[i]) {
                        assert(type_models(xs@)[i as int] != type_models(ys@)[i as int]);
                        return false;
                    }
                    i = i + 1;
                }
                assert(type_models(xs@) =~= type_models(ys@));
                true
            },
            (Type::Named(n1, id1, xs), Type::Named(n2, id2, ys)) => {
                if !(*n1 == *n2) || id1.id != id2.id {
                    return false;
                }
                if xs.len() != ys.len() {
                    assert(type_models(xs@).len() != type_models(ys@).len());
                    return false;
                }
                let mut i: usize = 0;
                while i < xs.len()
                    invariant
                        i <= xs.len(),
                        xs.len() == ys.len(),
                        forall|k: int| 0 <= k < i ==> (#[trigger] xs@[k]).model() == ys@[k].model(),
                    decreases xs.len() - i,
                {
                    if !xs[i].equals(&ys[i]) {
                        assert(type_models(xs@)[i as int] != type_models(ys@)[i as int]);
                        return false;
                    }
                    i = i + 1;
                }
                assert(type_models(xs@) =~= type_models(ys@));
                true
            },
            (Type::Function(f1, t1), Type::Function(f2, t2)) => f1.equals(f2) && t1.equals(t2),
            (Type::Var(i1, c1), Type::Var(i2, c2)) => *i1 == *i2 && class_ids_equal(c1, c2),
            (Type::FixedVar(i1, n1, c1), Type::FixedVar(i2, n2, c2)) => *i1 == *i2 && *n1 == *n2
                && class_ids_equal(c1, c2),
            _ => false,
        }
    }

    /// The outer constructor of the type.
    pub fn get_base_type(&self) -> (r: BaseType)
        ensures
            r == self@.base_type(),
    {
        match self {
            Type::Tuple(_) => BaseType::Tuple,
            Type::Named(_, id, _) => BaseType::Named(*id),
            Type::Function(_, _) => BaseType::Function,
            Type::Var(_, _) => BaseType::Generic,
            Type::FixedVar(_, _, _) => BaseType::Generic,
        }
    }

    /// Whether the type holds no variable.
    #[verifier::loop_isolation(false)]
    pub fn is_concrete_type(&self) -> (r: bool)
        ensures
            r == self@.is_concrete(),
        decreases self,
    {
        match self {
            Type::Tuple(items) => {
                let mut i: usize = 0;
                while i < items.len()
                    invariant
                        i <= items.len(),
                        forall|k: int| 0 <= k < i ==> (#[trigger] type_models(items@)[k]).is_concrete(),
                    decreases items.len() - i,
                {
                    if !items[i].is_concrete_type() {
                        assert(!type_models(items@)[i as int].is_concrete());
                        assert(self@ matches TypeModel::Tuple(ms) ==> ms == type_models(items@));
                        assert(self@ matches TypeModel::Named(_, _, ms) ==> ms == type_models(
                            items@,
                        ));
                        return false;
                    }
                    i = i + 1;
                }
                true
            },
            Type::Named(name, id, items) => {
                let mut i: usize = 0;
                while i < items.len()
                    invariant
                        i <= items.len(),
                        forall|k: int| 0 <= k < i ==> (#[trigger] type_models(items@)[k]).is_concrete(),
                    decreases items.len() - i,
                {
                    if !items[i].is_concrete_type() {
                        assert(!type_models(items@)[i as int].is_concrete());
                        assert(self@ matches TypeModel::Tuple(ms) ==> ms == type_models(items@));
                        assert(self@ matches TypeModel::Named(_, _, ms) ==> ms == type_models(
                            items@,
                        ));
                        return false;
                    }
                    i = i + 1;
                }
                true
            },
            Type::Function(from, to) => from.is_concrete_type() && to.is_concrete_type(),
            Type::Var(_, _) => false,
            Type::FixedVar(_, _, _) => false,
        }
    }
}

/// Whether two lists of class ids are the same list.
pub fn class_ids_equal(a: &Vec<ClassId>, b: &Vec<ClassId>) -> (r: bool)
    ensures
        r == (a@ == b@),
{
    if a.len() != b.len() {
        return false;
    }
    let mut i: usize = 0;
    while i < a.len()
        invariant
            i <= a.len(),
            a.len() == b.len(),
            a@.subrange(0, i as int) == b@.subrange(0, i as int),
        decreases a.len() - i,
    {
        if a[i].id != b[i].id {
            return false;
        }
        assert(a@.subrange(0, i + 1) =~= a@.subrange(0, i as int).push(a@[i as int]));
        assert(b@.subrange(0, i + 1) =~= b@.subrange(0, i as int).push(b@[i as int]));
        i = i + 1;
    }
    assert(a@ =~= a@.subrange(0, a.len() as int));
    assert(b@ =~= b@.subrange(0, b.len() as int));
    true
}

/// Whether `ids` holds `id`.
pub fn contains_class_id(ids: &Vec<ClassId>, id: ClassId) -> (r: bool)
    ensures
        r == ids@.contains(id),
{
    let mut i: usize = 0;
    while i < ids.len()
        invariant
            i <= ids.len(),
            forall|k: int| 0 <= k < i ==> ids@[k] != id,
        decreases ids.len() - i,
    {
        if ids[i].id == id.id {
            return true;
        }
        i = i + 1;
    }
    false
}

impl Type {
    /// The type with a copy of `replacement` in place of each occurrence of
    /// the free variable `index`.
    #[verifier::loop_isolation(false)]
    pub fn subst(&self, index: usize, replacement: &Type) -> (r: Type)
        ensures
            r@ == self@.subst(index, replacement@),
        decreases self,
    {
        match self {
            Type::Tuple(items) => {
                let mut r: Vec<Type> = Vec::new();
                let mut i: usize = 0;
                while i < items.len()
                    invariant
                        i <= items.len(),
                        r.len() == i,
                        forall|k: int|
                            0 <= k < i ==> (#[trigger] r@[k]).model() == items@[k].model().subst(
                                index,
                                replacement@,
                            ),
                    decreases items.len() - i,
                {
                    r.push(items[i].subst(index, replacement));
                    i = i + 1;
                }
                assert(self@ matches TypeModel::Tuple(ms) ==> ms == type_models(items@));
                assert(type_models(r@) =~= self@.subst(index, replacement@)->Tuple_0);
                Type::Tuple(r)
            },
            Type::Named(name, id, items) => {
                let mut r: Vec<Type> = Vec::new();
                let mut i: usize = 0;
                while i < items.len()
                    invariant
                        i <= items.len(),
                        r.len() == i,
                        forall|k: int|
                            0 <= k < i ==> (#[trigger] r@[k]).model() == items@[k].model().subst(
                                index,
                                replacement@,
                            ),
                    decreases items.len() - i,
                {
                    r.push(items[i].subst(index, replacement));
                    i = i + 1;
                }
                assert(self@ matches TypeModel::Named(_, _, ms) ==> ms == type_models(items@));
                assert(type_models(r@) =~= self@.subst(index, replacement@)->Named_2);
                Type::Named(name.clone(), *id, r)
            },
            Type::Function(from, to) => Type::Function(
                Box::new(from.subst(index, replacement)),
                Box::new(to.subst(index, replacement)),
            ),
            Type::Var(i, constraints) => if *i == index {
                replacement.copy()
            } else {
                Type::Var(*i, copy_class_ids(constraints))
            },
            Type::FixedVar(i, name, constraints) => Type::FixedVar(
                *i,
                name.clone(),
                copy_class_ids(constraints),
            ),
        }
    }

    /// Whether the free variable `index` occurs in the type.
    #[verifier::loop_isolation(false)]
    pub fn occurs(&self, index: usize) -> (r: bool)
        ensures
            r == self@.occurs(index),
        decreases self,
    {
        match self {
            Type::Tuple(items) => {
                let mut i: usize = 0;
                while i < items.len()
                    invariant
                        i <= items.len(),
                        forall|k: int| 0 <= k < i ==> !(#[trigger] type_models(items@)[k]).occurs(index),
                    decreases items.len() - i,
                {
                    if items[i].occurs(index) {
                        assert(type_models(items@)[i as int].occurs(index));
                        assert(self@ matches TypeModel::Tuple(ms) ==> ms == type_models(items@));
                        return true;
                    }
                    i = i + 1;
                }
                assert(self@ matches TypeModel::Tuple(ms) ==> ms == type_models(items@));
                false
            },
            Type::Named(_, _, items) => {
                let mut i: usize = 0;
                while i < items.len()
                    invariant
                        i <= items.len(),
                        forall|k: int| 0 <= k < i ==> !(#[trigger] type_models(items@)[k]).occurs(index),
                    decreases items.len() - i,
                {
                    if items[i].occurs(index) {
                        assert(type_models(items@)[i as int].occurs(index));
                        assert(self@ matches TypeModel::Named(_, _, ms) ==> ms == type_models(
                            items@,
                        ));
                        return true;
                    }
                    i = i + 1;
                }
                assert(self@ matches TypeModel::Named(_, _, ms) ==> ms == type_models(items@));
                false
            },
            Type::Function(from, to) => from.occurs(index) || to.occurs(index),
            Type::Var(i, _) => *i == index,
            Type::FixedVar(_, _, _) => false,
        }
    }

    /// The type with each rigid variable turned into a free one.
    #[verifier::loop_isolation(false)]
    pub fn remove_fixed_types(&self) -> (r: Type)
        ensures
            r@ == self@.remove_fixed(),
        decreases self,
    {
        match self {
            Type::Tuple(items) => {
                let mut r: Vec<Type> = Vec::new();
                let mut i: usize = 0;
                while i < items.len()
                    invariant
                        i <= items.len(),
                        r.len() == i,
                        forall|k: int|
                            0 <= k < i ==> (#[trigger] r@[k]).model()
                                == items@[k].model().remove_fixed(),
                    decreases items.len() - i,
                {
                    r.push(items[i].remove_fixed_types());
                    i = i + 1;
                }
                assert(self@ matches TypeModel::Tuple(ms) ==> ms == type_models(items@));
                assert(type_models(r@) =~= self@.remove_fixed()->Tuple_0);
                Type::Tuple(r)
            },
            Type::Named(name, id, items) => {
                let mut r: Vec<Type> = Vec::new();
                let mut i: usize = 0;
                while i < items.len()
                    invariant
                        i <= items.len(),
                        r.len() == i,
                        forall|k: int|
                            0 <= k < i ==> (#[trigger] r@[k]).model()
                                == items@[k].model().remove_fixed(),
                    decreases items.len() - i,
                {
                    r.push(items[i].remove_fixed_types());
                    i = i + 1;
                }
                assert(self@ matches TypeModel::Named(_, _, ms) ==> ms == type_models(items@));
                assert(type_models(r@) =~= self@.remove_fixed()->Named_2);
                Type::Named(name.clone(), *id, r)
            },
            Type::Function(from, to) => Type::Function(
                Box::new(from.remove_fixed_types()),
                Box::new(to.remove_fixed_types()),
            ),
            Type::Var(i, constraints) => Type::Var(*i, copy_class_ids(constraints)),
            Type::FixedVar(i, _, constraints) => Type::Var(*i, copy_class_ids(constraints)),
        }
    }

    /// The number of nodes of the type, or `usize::MAX` where it has more.
    #[verifier::loop_isolation(false)]
    pub fn node_count(&self) -> (r: usize)
        ensures
            r == saturate(self@.size()),
        decreases self,
    {
        match self {
            Type::Tuple(items) => {
                let mut total: usize = 0;
                let mut i: usize = items.len();
                while i > 0
                    invariant
                        i <= items.len(),
                        total == saturate(sizes(type_models(items@), i as int)),
                    decreases i,
                {
                    i = i - 1;
                    total = total.saturating_add(items[i].node_count());
                }
                assert(self@ matches TypeModel::Tuple(ms) ==> ms == type_models(items@));
                total.saturating_add(1)
            },
            Type::Named(_, _, items) => {
                let mut total: usize = 0;
                let mut i: usize = items.len();
                while i > 0
                    invariant
                        i <= items.len(),
                        total == saturate(sizes(type_models(items@), i as int)),
                    decreases i,
                {
                    i = i - 1;
                    total = total.saturating_add(items[i].node_count());
                }
                assert(self@ matches TypeModel::Named(_, _, ms) ==> ms == type_models(items@));
                total.saturating_add(1)
            },
            Type::Function(from, to) => from.node_count().saturating_add(
                to.node_count(),
            ).saturating_add(1),
            Type::Var(_, _) => 1,
            Type::FixedVar(_, _, _) => 1,
        }
    }
}

/// A natural number as a machine number: itself, or `usize::MAX` where it
/// is larger.
pub open spec fn saturate(n: nat) -> usize {
    if n > usize::MAX {
        usize::MAX
    } else {
        n as usize
    }
}

} // verus!
