//! Concrete types, and the substitution contexts that turn a callee's
//! schematic type into them.

use crate::ir::class::ClassId;
use crate::ir::class::InstanceId;
use crate::ir::data::TypeDefId;
use crate::ir::types::type_models;
use crate::ir::types::Type;
use crate::ir::types::TypeModel;
use vstd::prelude::*;

verus! {

/// A type without variables: what a runtime value carries.
#[derive(Debug)]
pub enum ConcreteType {
    Tuple(Vec<ConcreteType>),
    Named(String, TypeDefId, Vec<ConcreteType>),
    Function(Box<ConcreteType>, Box<ConcreteType>),
}

/// The mathematical model of a concrete type.
pub ghost enum ConcreteModel {
    Tuple(Seq<ConcreteModel>),
    Named(Seq<char>, TypeDefId, Seq<ConcreteModel>),
    Function(Box<ConcreteModel>, Box<ConcreteModel>),
}

/// The models of a sequence of concrete types, item by item.
pub open spec fn concrete_models(items: Seq<ConcreteType>) -> Seq<ConcreteModel>
    decreases items,
{
    Seq::new(items.len(), |i: int| if 0 <= i < items.len() { items[i].model() } else { arbitrary() })
}

impl ConcreteModel {
    /// The type that is left of a function type once `count` arguments were
    /// supplied; a type that is no function is left as it is.
    pub open spec fn strip(self, count: nat) -> ConcreteModel
        decreases count,
    {
        if count == 0 {
            self
        } else {
            match self {
                ConcreteModel::Function(_, to) => to.strip((count - 1) as nat),
                _ => self,
            }
        }
    }
}

impl ConcreteType {
    /// The mathematical model of this type.
    pub open spec fn model(&self) -> ConcreteModel
        decreases self,
    {
        match self {
            ConcreteType::Tuple(items) => ConcreteModel::Tuple(concrete_models(items@)),
            ConcreteType::Named(name, id, items) => ConcreteModel::Named(
                name@,
                *id,
                concrete_models(items@),
            ),
            ConcreteType::Function(from, to) => ConcreteModel::Function(
                Box::new((**from).model()),
                Box::new((**to).model()),
            ),
        }
    }

    /// A deep copy.
    #[verifier::loop_isolation(false)]
    pub fn copy(&self) -> (r: ConcreteType)
        ensures
            r@ == self@,
        decreases self,
    {
        match self {
            ConcreteType::Tuple(items) => {
                let mut r: Vec<ConcreteType> = Vec::new();
                let mut i: usize = 0;
                while i < items.len()
                    invariant
                        i <= items.len(),
                        r.len() == i,
                        forall|k: int| 0 <= k < i ==> (#[trigger] r@[k]).model() == items@[k].model(),
                    decreases items.len() - i,
                {
                    r.push(items[i].copy());
                    i = i + 1;
                }
                assert(concrete_models(r@) =~= concrete_models(items@));
                ConcreteType::Tuple(r)
            },
            ConcreteType::Named(name, id, items) => {
                let mut r: Vec<ConcreteType> = Vec::new();
                let mut i: usize = 0;
                while i < items.len()
                    invariant
                        i <= items.len(),
                        r.len() == i,
                        forall|k: int| 0 <= k < i ==> (#[trigger] r@[k]).model() == items@[k].model(),
                    decreases items.len() - i,
                {
                    r.push(items[i].copy());
                    i = i + 1;
                }
                assert(concrete_models(r@) =~= concrete_models(items@));
                ConcreteType::Named(name.clone(), *id, r)
            },
            ConcreteType::Function(from, to) => ConcreteType::Function(
                Box::new(from.copy()),
                Box::new(to.copy()),
            ),
        }
    }

    /// Structural equality: the two types have the same model.
    #[verifier::loop_isolation(false)]
    pub fn equals(&self, other: &ConcreteType) -> (r: bool)
        ensures
            r == (self@ == other@),
        decreases self,
    {
        match (self, other) {
            (ConcreteType::Tuple(xs), ConcreteType::Tuple(ys)) => {
                if xs.len() != ys.len() {
                    assert(concrete_models(xs@).len() != concrete_models(ys@).len());
                    return false;
                }
                let mut i: usize = 0;
                while i < xs.len()
                    invariant
                        i <= xs.len(),
                        xs.len() == ys.len(),
                        forall|k: int| 0 <= k < i ==> (#[trigger] xs@[k]).model() == ys@[k].model(),
                    decreases xs.len() - i,
                {
                    if !xs[i].equals(&ys[i]) {
                        assert(concrete_models(xs@)[i as int] != concrete_models(ys@)[i as int]);
                        return false;
                    }
                    i = i + 1;
                }
                assert(concrete_models(xs@) =~= concrete_models(ys@));
                true
            },
            (ConcreteType::Named(n1, id1, xs), ConcreteType::Named(n2, id2, ys)) => {
                if !(*n1 == *n2) || id1.id != id2.id {
                    return false;
                }
                if xs.len() != ys.len() {
                    assert(concrete_models(xs@).len() != concrete_models(ys@).len());
                    return false;
                }
                let mut i: usize = 0;
                while i < xs.len()
                    invariant
                        i <= xs.len(),
                        xs.len() == ys.len(),
                        forall|k: int| 0 <= k < i ==> (#[trigger] xs@[k]).model() == ys@[k].model(),
                    decreases xs.len() - i,
                {
                    if !xs[i].equals(&ys[i]) {
                        assert(concrete_models(xs@)[i as int] != concrete_models(ys@)[i as int]);
                        return false;
                    }
                    i = i + 1;
                }
                assert(concrete_models(xs@) =~= concrete_models(ys@));
                true
            },
            (ConcreteType::Function(f1, t1), ConcreteType::Function(f2, t2)) => f1.equals(f2)
                && t1.equals(t2),
            _ => false,
        }
    }

    /// The type that is left of a function type once `arg_count` arguments
    /// were supplied.
    pub fn get_func_type(&self, arg_count: usize) -> (r: ConcreteType)
        ensures
            r@ == self@.strip(arg_count as nat),
        decreases arg_count,
    {
        if arg_count == 0 {
            self.copy()
        } else {
            match self {
                ConcreteType::Function(_, to) => to.get_func_type(arg_count - 1),
                _ => self.copy(),
            }
        }
    }
}

impl View for ConcreteType {
    type V = ConcreteModel;

    open spec fn view(&self) -> ConcreteModel {
        self.model()
    }
}

impl Clone for ConcreteType {
    fn clone(&self) -> (r: ConcreteType)
        ensures
            r@ == self@,
    {
        self.copy()
    }
}

/// The binding of `index` in a list of bindings: the last one made.
pub open spec fn binding_of(items: Seq<(usize, ConcreteType)>, index: usize) -> Option<
    ConcreteModel,
>
    decreases items.len(),
{
    if items.len() == 0 {
        None
    } else if items.last().0 == index {
        Some(items.last().1@)
    } else {
        binding_of(items.drop_last(), index)
    }
}

/// The binding of a callee's type variables to concrete types at one call.
#[derive(Debug)]
pub struct SubstitutionContext {
    pub items: Vec<(usize, ConcreteType)>,
}

impl View for SubstitutionContext {
    type V = Map<usize, ConcreteModel>;

    open spec fn view(&self) -> Map<usize, ConcreteModel> {
        Map::new(
            |index: usize| binding_of(self.items@, index).is_some(),
            |index: usize| binding_of(self.items@, index).unwrap(),
        )
    }
}

impl Clone for SubstitutionContext {
    fn clone(&self) -> (r: SubstitutionContext)
        ensures
            r@ == self@,
    {
        self.copy()
    }
}

impl SubstitutionContext {
    /// A context that binds no variable: its list of bindings is empty.
    pub fn new() -> (r: SubstitutionContext)
        ensures
            r.items@.len() == 0,
            r@ == Map::<usize, ConcreteModel>::empty(),
    {
        let r = SubstitutionContext { items: Vec::new() };
        assert(r@ =~= Map::<usize, ConcreteModel>::empty());
        r
    }

    /// Binds `index` to `ty`, in place of an earlier binding of `index`.
    pub fn add_generic(&mut self, index: usize, ty: ConcreteType)
        ensures
            final(self)@ == old(self)@.insert(index, ty@),
    {
        self.items.push((index, ty));
        proof {
            let before = old(self).items@;
            let after = self.items@;
            assert(after.drop_last() =~= before);
            assert(self@ =~= old(self)@.insert(index, ty@));
        }
    }

    /// The concrete type bound to `index`, if there is one.
    pub fn get_type(&self, index: usize) -> (r: Option<&ConcreteType>)
        ensures
            match r {
                Some(ty) => self@.contains_key(index) && self@[index] == ty@,
                None => !self@.contains_key(index),
            },
    {
        let mut j: usize = self.items.len();
        assert(self.items@.subrange(0, j as int) =~= self.items@);
        while j > 0
            invariant
                j <= self.items.len(),
                binding_of(self.items@, index) == binding_of(
                    self.items@.subrange(0, j as int),
                    index,
                ),
            decreases j,
        {
            let ghost prefix = self.items@.subrange(0, j as int);
            assert(prefix.drop_last() =~= self.items@.subrange(0, j - 1));
            if self.items[j - 1].0 == index {
                return Some(&self.items[j - 1].1);
            }
            j = j - 1;
        }
        None
    }

    /// A deep copy.
    pub fn copy(&self) -> (r: SubstitutionContext)
        ensures
            r@ == self@,
    {
        let mut items: Vec<(usize, ConcreteType)> = Vec::new();
        let mut i: usize = 0;
        while i < self.items.len()
            invariant
                i <= self.items.len(),
                items.len() == i,
                forall|k: int|
                    0 <= k < i ==> (#[trigger] items@[k]).0 == self.items@[k].0 && items@[k].1@
                        == self.items@[k].1@,
            decreases self.items.len() - i,
        {
            items.push((self.items[i].0, self.items[i].1.copy()));
            i = i + 1;
        }
        let r = SubstitutionContext { items };
        proof {
            assert forall|index: usize|
                binding_of(r.items@, index) == binding_of(self.items@, index) by {
                lemma_binding_of_pointwise(r.items@, self.items@, index);
            }
            assert(r@ =~= self@);
        }
        r
    }
}

/// Lists of bindings that agree item by item bind every index alike.
pub proof fn lemma_binding_of_pointwise(
    a: Seq<(usize, ConcreteType)>,
    b: Seq<(usize, ConcreteType)>,
    index: usize,
)
    requires
        a.len() == b.len(),
        forall|k: int| 0 <= k < a.len() ==> (#[trigger] a[k]).0 == b[k].0 && a[k].1@ == b[k].1@,
    ensures
        binding_of(a, index) == binding_of(b, index),
    decreases a.len(),
{
    if a.len() > 0 {
        lemma_binding_of_pointwise(a.drop_last(), b.drop_last(), index);
    }
}

impl TypeModel {
    /// Whether the variable `index` stands in the type, free or rigid.
    pub open spec fn mentions(self, index: usize) -> bool
        decreases self,
    {
        match self {
            TypeModel::Tuple(items) => exists|i: int|
                0 <= i < items.len() && (#[trigger] items[i]).mentions(index),
            TypeModel::Named(_, _, items) => exists|i: int|
                0 <= i < items.len() && (#[trigger] items[i]).mentions(index),
            TypeModel::Function(from, to) => from.mentions(index) || to.mentions(index),
            TypeModel::Var(i, _) => i == index,
            TypeModel::FixedVar(i, _, _) => i == index,
        }
    }

    /// The concrete type that the context makes of this type: each variable
    /// gives way to what the context binds it to. There is none where a
    /// variable of the type is unbound.
    pub open spec fn concretize(self, ctx: Map<usize, ConcreteModel>) -> Option<ConcreteModel>
        decreases self, 0nat,
    {
        match self {
            TypeModel::Tuple(items) => match concretize_items(items, ctx) {
                Some(cs) => Some(ConcreteModel::Tuple(cs)),
                None => None,
            },
            TypeModel::Named(name, id, items) => match concretize_items(items, ctx) {
                Some(cs) => Some(ConcreteModel::Named(name, id, cs)),
                None => None,
            },
            TypeModel::Function(from, to) => match (from.concretize(ctx), to.concretize(ctx)) {
                (Some(f), Some(t)) => Some(ConcreteModel::Function(Box::new(f), Box::new(t))),
                _ => None,
            },
            TypeModel::Var(i, _) => if ctx.contains_key(i) {
                Some(ctx[i])
            } else {
                None
            },
            TypeModel::FixedVar(i, _, _) => if ctx.contains_key(i) {
                Some(ctx[i])
            } else {
                None
            },
        }
    }

    /// The context that matching this type against a concrete type leaves:
    /// `ctx` extended by a binding for each variable of the type that `ctx`
    /// left unbound. There is none where the shapes differ, or where a
    /// variable would have to stand for two different concrete types.
    pub open spec fn match_generic(
        self,
        concrete: ConcreteModel,
        ctx: Map<usize, ConcreteModel>,
    ) -> Option<Map<usize, ConcreteModel>>
        decreases self, 0nat,
    {
        match (self, concrete) {
            (TypeModel::Var(i, _), _) => bind_generic(ctx, i, concrete),
            (TypeModel::FixedVar(i, _, _), _) => bind_generic(ctx, i, concrete),
            (TypeModel::Tuple(xs), ConcreteModel::Tuple(cs)) => if xs.len() == cs.len() {
                match_generic_items(xs, cs, 0, ctx)
            } else {
                None
            },
            (TypeModel::Named(name, id, xs), ConcreteModel::Named(cname, cid, cs)) => if name
                == cname && id == cid && xs.len() == cs.len() {
                match_generic_items(xs, cs, 0, ctx)
            } else {
                None
            },
            (TypeModel::Function(f, t), ConcreteModel::Function(cf, ct)) => match f.match_generic(
                *cf,
                ctx,
            ) {
                Some(m) => t.match_generic(*ct, m),
                None => None,
            },
            _ => None,
        }
    }
}

/// `ctx` with `index` bound to `concrete`, unless `ctx` binds it to another type.
pub open spec fn bind_generic(
    ctx: Map<usize, ConcreteModel>,
    index: usize,
    concrete: ConcreteModel,
) -> Option<Map<usize, ConcreteModel>> {
    if ctx.contains_key(index) {
        if ctx[index] == concrete {
            Some(ctx)
        } else {
            None
        }
    } else {
        Some(ctx.insert(index, concrete))
    }
}

/// The concrete types that the context makes of `items`, if it makes one of each.
pub open spec fn concretize_items(items: Seq<TypeModel>, ctx: Map<usize, ConcreteModel>) -> Option<
    Seq<ConcreteModel>,
>
    decreases items, 1nat,
{
    if forall|i: int| 0 <= i < items.len() ==> (#[trigger] items[i]).concretize(ctx).is_some() {
        Some(
            Seq::new(
                items.len(),
                |i: int|
                    if 0 <= i < items.len() {
                        items[i].concretize(ctx).unwrap()
                    } else {
                        arbitrary()
                    },
            ),
        )
    } else {
        None
    }
}

/// Matches the items of `xs` from position `from` on against those of `cs`,
/// in order, each in the context that the one before it left.
pub open spec fn match_generic_items(
    xs: Seq<TypeModel>,
    cs: Seq<ConcreteModel>,
    from: int,
    ctx: Map<usize, ConcreteModel>,
) -> Option<Map<usize, ConcreteModel>>
    decreases xs, xs.len() - from,
{
    if 0 <= from < xs.len() {
        match xs[from].match_generic(cs[from], ctx) {
            Some(m) => match_generic_items(xs, cs, from + 1, m),
            None => None,
        }
    } else {
        Some(ctx)
    }
}

impl Type {
    /// The concrete type that `ctx` makes of this type, if it binds every
    /// variable of it.
    #[verifier::loop_isolation(false)]
    pub fn to_concrete_type(&self, ctx: &SubstitutionContext) -> (r: Option<ConcreteType>)
        ensures
            match r {
                Some(c) => self@.concretize(ctx@) == Some(c@),
                None => self@.concretize(ctx@).is_none(),
            },
        decreases self,
    {
        match self {
            Type::Tuple(items) => {
                let mut r: Vec<ConcreteType> = Vec::new();
                let mut i: usize = 0;
                while i < items.len()
                    invariant
                        i <= items.len(),
                        r.len() == i,
                        forall|k: int|
                            0 <= k < i ==> (#[trigger] type_models(items@)[k]).concretize(ctx@)
                                == Some(r@[k].model()),
                    decreases items.len() - i,
                {
                    match items[i].to_concrete_type(ctx) {
                        Some(c) => {
                            r.push(c);
                        },
                        None => {
                            assert(type_models(items@)[i as int].concretize(ctx@).is_none());
                            assert(self@ matches TypeModel::Tuple(ms) ==> ms == type_models(items@));
                            return None;
                        },
                    }
                    i = i + 1;
                }
                assert(self@ matches TypeModel::Tuple(ms) ==> ms == type_models(items@));
                assert(concretize_items(type_models(items@), ctx@).unwrap() =~= concrete_models(r@));
                Some(ConcreteType::Tuple(r))
            },
            Type::Named(name, id, items) => {
                let mut r: Vec<ConcreteType> = Vec::new();
                let mut i: usize = 0;
                while i < items.len()
                    invariant
                        i <= items.len(),
                        r.len() == i,
                        forall|k: int|
                            0 <= k < i ==> (#[trigger] type_models(items@)[k]).concretize(ctx@)
                                == Some(r@[k].model()),
                    decreases items.len() - i,
                {
                    match items[i].to_concrete_type(ctx) {
                        Some(c) => {
                            r.push(c);
                        },
                        None => {
                            assert(type_models(items@)[i as int].concretize(ctx@).is_none());
                            assert(self@ matches TypeModel::Named(_, _, ms) ==> ms == type_models(
                                items@,
                            ));
                            return None;
                        },
                    }
                    i = i + 1;
                }
                assert(self@ matches TypeModel::Named(_, _, ms) ==> ms == type_models(items@));
                assert(concretize_items(type_models(items@), ctx@).unwrap() =~= concrete_models(r@));
                Some(ConcreteType::Named(name.clone(), *id, r))
            },
            Type::Function(from, to) => {
                let f = from.to_concrete_type(ctx);
                let t = to.to_concrete_type(ctx);
                match (f, t) {
                    (Some(f), Some(t)) => Some(ConcreteType::Function(Box::new(f), Box::new(t))),
                    _ => None,
                }
            },
            Type::Var(index, _) => match ctx.get_type(*index) {
                Some(c) => Some(c.copy()),
                None => None,
            },
            Type::FixedVar(index, _, _) => match ctx.get_type(*index) {
                Some(c) => Some(c.copy()),
                None => None,
            },
        }
    }

    /// Matches this type against a concrete type and records in `ctx` what
    /// each variable of it stands for. Returns whether the two fit; where
    /// they do not, `ctx` holds the bindings made up to the misfit.
    #[verifier::loop_isolation(false)]
    pub fn match_generic_types(&self, concrete: &ConcreteType, ctx: &mut SubstitutionContext) -> (ok:
        bool)
        ensures
            match self@.match_generic(concrete@, old(ctx)@) {
                Some(m) => ok && final(ctx)@ == m,
                None => !ok,
            },
        decreases self,
    {
        match (self, concrete) {
            (Type::Var(index, _), _) => bind_concrete(ctx, *index, concrete),
            (Type::FixedVar(index, _, _), _) => bind_concrete(ctx, *index, concrete),
            (Type::Tuple(xs), ConcreteType::Tuple(cs)) => {
                if xs.len() != cs.len() {
                    return false;
                }
                let mut i: usize = 0;
                while i < xs.len()
                    invariant
                        i <= xs.len(),
                        xs.len() == cs.len(),
                        match_generic_items(type_models(xs@), concrete_models(cs@), 0, old(ctx)@)
                            == match_generic_items(
                            type_models(xs@),
                            concrete_models(cs@),
                            i as int,
                            ctx@,
                        ),
                    decreases xs.len() - i,
                {
                    if !xs[i].match_generic_types(&cs[i], ctx) {
                        return false;
                    }
                    i = i + 1;
                }
                true
            },
            (Type::Named(name, id, xs), ConcreteType::Named(cname, cid, cs)) => {
                if !(*name == *cname) || id.id != cid.id || xs.len() != cs.len() {
                    return false;
                }
                let mut i: usize = 0;
                while i < xs.len()
                    invariant
                        i <= xs.len(),
                        xs.len() == cs.len(),
                        match_generic_items(type_models(xs@), concrete_models(cs@), 0, old(ctx)@)
                            == match_generic_items(
                            type_models(xs@),
                            concrete_models(cs@),
                            i as int,
                            ctx@,
                        ),
                    decreases xs.len() - i,
                {
                    if !xs[i].match_generic_types(&cs[i], ctx) {
                        return false;
                    }
                    i = i + 1;
                }
                true
            },
            (Type::Function(f, t), ConcreteType::Function(cf, ct)) => {
                if !f.match_generic_types(cf, ctx) {
                    return false;
                }
                t.match_generic_types(ct, ctx)
            },
            _ => false,
        }
    }
}

/// Binds `index` to `concrete` in `ctx`, unless `ctx` binds it to another type.
fn bind_concrete(ctx: &mut SubstitutionContext, index: usize, concrete: &ConcreteType) -> (ok: bool)
    ensures
        match bind_generic(old(ctx)@, index, concrete@) {
            Some(m) => ok && final(ctx)@ == m,
            None => !ok && final(ctx)@ == old(ctx)@,
        },
{
    match ctx.get_type(index) {
        Some(existing) => existing.equals(concrete),
        None => {
            ctx.add_generic(index, concrete.copy());
            true
        },
    }
}

/// Whether `large` binds every index that `small` binds, and to the same type.
pub open spec fn within(small: Map<usize, ConcreteModel>, large: Map<usize, ConcreteModel>) -> bool {
    forall|k: usize| #[trigger] small.contains_key(k) ==> large.contains_key(k) && large[k] == small[k]
}

/// Matching after concretizing gives the context back: where `full` makes a
/// concrete type of `t`, matching `t` against that type, from any part
/// `start` of `full`, succeeds, and leaves `start` with the bindings that
/// `full` has for the variables of `t`, and no others.
pub proof fn lemma_match_recovers_context(
    t: TypeModel,
    full: Map<usize, ConcreteModel>,
    start: Map<usize, ConcreteModel>,
)
    requires
        within(start, full),
        t.concretize(full).is_some(),
    ensures
        ({
            let r = t.match_generic(t.concretize(full).unwrap(), start);
            &&& r.is_some()
            &&& within(start, r.unwrap())
            &&& within(r.unwrap(), full)
            &&& forall|k: usize| #[trigger]
                r.unwrap().contains_key(k) <==> (start.contains_key(k) || t.mentions(k))
        }),
    decreases t, 0nat,
{
    match t {
        TypeModel::Tuple(xs) => {
            lemma_match_items_recovers_context(xs, full, start, 0);
            let cs = concretize_items(xs, full).unwrap();
            assert(cs.len() == xs.len());
            let r = match_generic_items(xs, cs, 0, start).unwrap();
            assert forall|k: usize| #[trigger]
                r.contains_key(k) <==> (start.contains_key(k) || t.mentions(k)) by {
                if t.mentions(k) {
                    let i = choose|i: int| 0 <= i < xs.len() && (#[trigger] xs[i]).mentions(k);
                    assert(0 <= i < xs.len() && xs[i].mentions(k));
                }
            }
        },
        TypeModel::Named(_, _, xs) => {
            lemma_match_items_recovers_context(xs, full, start, 0);
            let cs = concretize_items(xs, full).unwrap();
            assert(cs.len() == xs.len());
            let r = match_generic_items(xs, cs, 0, start).unwrap();
            assert forall|k: usize| #[trigger]
                r.contains_key(k) <==> (start.contains_key(k) || t.mentions(k)) by {
                if t.mentions(k) {
                    let i = choose|i: int| 0 <= i < xs.len() && (#[trigger] xs[i]).mentions(k);
                    assert(0 <= i < xs.len() && xs[i].mentions(k));
                }
            }
        },
        TypeModel::Function(f, t2) => {
            lemma_match_recovers_context(*f, full, start);
            let m1 = f.match_generic(f.concretize(full).unwrap(), start).unwrap();
            lemma_match_recovers_context(*t2, full, m1);
            let r = t2.match_generic(t2.concretize(full).unwrap(), m1).unwrap();
            assert forall|k: usize| #[trigger]
                r.contains_key(k) <==> (start.contains_key(k) || t.mentions(k)) by {
                assert(m1.contains_key(k) <==> (start.contains_key(k) || f.mentions(k)));
            }
        },
        TypeModel::Var(i, _) => {},
        TypeModel::FixedVar(i, _, _) => {},
    }
}

/// The same of a list of types, matched in order from position `from` on.
pub proof fn lemma_match_items_recovers_context(
    xs: Seq<TypeModel>,
    full: Map<usize, ConcreteModel>,
    start: Map<usize, ConcreteModel>,
    from: int,
)
    requires
        0 <= from <= xs.len(),
        within(start, full),
        concretize_items(xs, full).is_some(),
    ensures
        ({
            let r = match_generic_items(xs, concretize_items(xs, full).unwrap(), from, start);
            &&& r.is_some()
            &&& within(start, r.unwrap())
            &&& within(r.unwrap(), full)
            &&& forall|k: usize| #[trigger]
                r.unwrap().contains_key(k) <==> (start.contains_key(k) || exists|i: int|
                    from <= i < xs.len() && (#[trigger] xs[i]).mentions(k))
        }),
    decreases xs, xs.len() - from,
{
    let cs = concretize_items(xs, full).unwrap();
    if from < xs.len() {
        assert(xs[from].concretize(full).is_some());
        lemma_match_recovers_context(xs[from], full, start);
        let m1 = xs[from].match_generic(cs[from], start).unwrap();
        lemma_match_items_recovers_context(xs, full, m1, from + 1);
        let r = match_generic_items(xs, cs, from, start).unwrap();
        assert forall|k: usize| #[trigger]
            r.contains_key(k) <==> (start.contains_key(k) || exists|i: int|
                from <= i < xs.len() && (#[trigger] xs[i]).mentions(k)) by {
            if r.contains_key(k) {
                if !start.contains_key(k) {
                    if m1.contains_key(k) {
                        assert(xs[from].mentions(k));
                    } else {
                        let i = choose|i: int|
                            from + 1 <= i < xs.len() && (#[trigger] xs[i]).mentions(k);
                        assert(from <= i < xs.len() && xs[i].mentions(k));
                    }
                }
            }
            if exists|i: int| from <= i < xs.len() && (#[trigger] xs[i]).mentions(k) {
                let i = choose|i: int| from <= i < xs.len() && (#[trigger] xs[i]).mentions(k);
                if i == from {
                    assert(m1.contains_key(k));
                } else {
                    assert(from + 1 <= i < xs.len() && xs[i].mentions(k));
                }
            }
        }
    }
}

/// A larger context makes the same concrete type of a type as a smaller one
/// that makes one at all.
pub proof fn lemma_concretize_grows(
    t: TypeModel,
    small: Map<usize, ConcreteModel>,
    large: Map<usize, ConcreteModel>,
)
    requires
        within(small, large),
        t.concretize(small).is_some(),
    ensures
        t.concretize(large) == t.concretize(small),
    decreases t,
{
    match t {
        TypeModel::Tuple(xs) => {
            assert forall|i: int| 0 <= i < xs.len() implies (#[trigger] xs[i]).concretize(large)
                == xs[i].concretize(small) by {
                lemma_concretize_grows(xs[i], small, large);
            }
            assert(concretize_items(xs, large).unwrap() =~= concretize_items(xs, small).unwrap());
        },
        TypeModel::Named(_, _, xs) => {
            assert forall|i: int| 0 <= i < xs.len() implies (#[trigger] xs[i]).concretize(large)
                == xs[i].concretize(small) by {
                lemma_concretize_grows(xs[i], small, large);
            }
            assert(concretize_items(xs, large).unwrap() =~= concretize_items(xs, small).unwrap());
        },
        TypeModel::Function(f, t2) => {
            lemma_concretize_grows(*f, small, large);
            lemma_concretize_grows(*t2, small, large);
        },
        TypeModel::Var(i, _) => {},
        TypeModel::FixedVar(i, _, _) => {},
    }
}

/// What matching leaves is a context that makes the matched concrete type of
/// the type: where matching `t` against `concrete` from `start` succeeds, the
/// context it leaves holds `start`, and makes `concrete` of `t`.
pub proof fn lemma_match_then_concretize(
    t: TypeModel,
    concrete: ConcreteModel,
    start: Map<usize, ConcreteModel>,
)
    requires
        t.match_generic(concrete, start).is_some(),
    ensures
        within(start, t.match_generic(concrete, start).unwrap()),
        t.concretize(t.match_generic(concrete, start).unwrap()) == Some(concrete),
    decreases t, 0nat,
{
    let m = t.match_generic(concrete, start).unwrap();
    match (t, concrete) {
        (TypeModel::Tuple(xs), ConcreteModel::Tuple(cs)) => {
            lemma_match_items_then_concretize(xs, cs, start, 0);
            assert(concretize_items(xs, m).is_some());
            assert(concretize_items(xs, m).unwrap() =~= cs);
        },
        (TypeModel::Named(_, _, xs), ConcreteModel::Named(_, _, cs)) => {
            lemma_match_items_then_concretize(xs, cs, start, 0);
            assert(concretize_items(xs, m).is_some());
            assert(concretize_items(xs, m).unwrap() =~= cs);
        },
        (TypeModel::Function(f, t2), ConcreteModel::Function(cf, ct)) => {
            lemma_match_then_concretize(*f, *cf, start);
            let m1 = f.match_generic(*cf, start).unwrap();
            lemma_match_then_concretize(*t2, *ct, m1);
            lemma_concretize_grows(*f, m1, m);
            assert(t.concretize(m) == Some(concrete));
        },
        (TypeModel::Var(i, _), _) => {
            assert(t.concretize(m) == Some(concrete));
        },
        (TypeModel::FixedVar(i, _, _), _) => {
            assert(t.concretize(m) == Some(concrete));
        },
        _ => {},
    }
}

/// The same of a list of types, matched in order from position `from` on.
pub proof fn lemma_match_items_then_concretize(
    xs: Seq<TypeModel>,
    cs: Seq<ConcreteModel>,
    start: Map<usize, ConcreteModel>,
    from: int,
)
    requires
        0 <= from <= xs.len(),
        xs.len() == cs.len(),
        match_generic_items(xs, cs, from, start).is_some(),
    ensures
        within(start, match_generic_items(xs, cs, from, start).unwrap()),
        forall|i: int|
            from <= i < xs.len() ==> (#[trigger] xs[i]).concretize(
                match_generic_items(xs, cs, from, start).unwrap(),
            ) == Some(cs[i]),
    decreases xs, xs.len() - from,
{
    if from < xs.len() {
        let m = match_generic_items(xs, cs, from, start).unwrap();
        lemma_match_then_concretize(xs[from], cs[from], start);
        let m1 = xs[from].match_generic(cs[from], start).unwrap();
        lemma_match_items_then_concretize(xs, cs, m1, from + 1);
        lemma_concretize_grows(xs[from], m1, m);
    }
}

/// The instance filed last in `items` under `class_id` and `ty`.
pub open spec fn instance_of(
    items: Seq<(ClassId, ConcreteType, InstanceId)>,
    class_id: ClassId,
    ty: ConcreteModel,
) -> Option<InstanceId>
    decreases items.len(),
{
    if items.len() == 0 {
        None
    } else if items.last().0 == class_id && items.last().1@ == ty {
        Some(items.last().2)
    } else {
        instance_of(items.drop_last(), class_id, ty)
    }
}

/// The instance that each class has at each concrete type: at most one, the
/// one added last.
#[derive(Debug)]
pub struct TypeInstanceResolver {
    pub instance_map: Vec<(ClassId, ConcreteType, InstanceId)>,
}

impl TypeInstanceResolver {
    /// The instance of `class_id` at `ty`.
    pub open spec fn instance(&self, class_id: ClassId, ty: ConcreteModel) -> Option<InstanceId> {
        instance_of(self.instance_map@, class_id, ty)
    }

    pub fn new() -> (r: TypeInstanceResolver)
        ensures
            r.instance_map@.len() == 0,
            forall|c: ClassId, t: ConcreteModel| r.instance(c, t).is_none(),
    {
        TypeInstanceResolver { instance_map: Vec::new() }
    }

    /// Files `instance_id` as the instance of `class_id` at `ty`, in place of
    /// an earlier one.
    pub fn add(&mut self, class_id: ClassId, ty: ConcreteType, instance_id: InstanceId)
        ensures
            final(self).instance(class_id, ty@) == Some(instance_id),
            forall|c: ClassId, t: ConcreteModel|
                !(c == class_id && t == ty@) ==> final(self).instance(c, t) == old(self).instance(
                    c,
                    t,
                ),
    {
        self.instance_map.push((class_id, ty, instance_id));
        assert(self.instance_map@.drop_last() =~= old(self).instance_map@);
    }

    /// The instance of `class_id` at `ty`, if one was added.
    pub fn get(&self, class_id: ClassId, ty: &ConcreteType) -> (r: Option<InstanceId>)
        ensures
            r == self.instance(class_id, ty@),
    {
        let mut j: usize = self.instance_map.len();
        assert(self.instance_map@.subrange(0, j as int) =~= self.instance_map@);
        while j > 0
            invariant
                j <= self.instance_map.len(),
                instance_of(self.instance_map@, class_id, ty@) == instance_of(
                    self.instance_map@.subrange(0, j as int),
                    class_id,
                    ty@,
                ),
            decreases j,
        {
            let ghost prefix = self.instance_map@.subrange(0, j as int);
            assert(prefix.drop_last() =~= self.instance_map@.subrange(0, j - 1));
            if self.instance_map[j - 1].0.id == class_id.id && self.instance_map[j - 1].1.equals(ty) {
                return Some(self.instance_map[j - 1].2);
            }
            j = j - 1;
        }
        None
    }
}

} // verus!
