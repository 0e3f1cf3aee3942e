//! The instance resolver: which instance of a class fits a type.

use crate::ir::class::ClassId;
use crate::ir::class::InstanceId;
use crate::ir::program::Declarations;
use crate::ir::program::Program;
use crate::ir::type_var_generator::TypeVarGenerator;
use crate::ir::types::contains_class_id;
use crate::ir::types::copy_class_ids;
use crate::ir::types::BaseType;
use crate::ir::types::Type;
use crate::ir::types::TypeModel;
use crate::ir::unifier::constraint_models;
use crate::ir::unifier::empty_substitution;
use crate::ir::unifier::unify;
use crate::ir::unifier::ConstraintModel;
use crate::ir::unifier::SubstitutionModel;
use crate::ir::unifier::Unifier;
use crate::location_info::LocationId;
use crate::typechecker::error::error_models;
use crate::typechecker::error::push_error;
use crate::typechecker::error::TypecheckError;
use crate::typechecker::error::TypecheckErrorModel;
use crate::ir::class::Class;
use crate::util::ItemContainer;
use vstd::prelude::*;

verus! {

/// An instance that the compiler derived for a type.
#[derive(Debug)]
pub struct AutoDerivedInstance {
    pub ty: Type,
    pub location: LocationId,
}

/// An instance: one that the user wrote, with its head type, or one that
/// was derived, by its position among the derived instances.
#[derive(Debug)]
pub enum InstanceInfo {
    UserDefined(Type, InstanceId, LocationId),
    AutoDerived(usize),
}

/// An instance as it is filed: under its class and the base type of its head.
#[derive(Debug)]
pub struct InstanceEntry {
    pub class_id: ClassId,
    pub base_type: BaseType,
    pub info: InstanceInfo,
}

/// How a class was resolved at a concrete type.
#[derive(Debug, Clone, Copy, PartialEq, Eq, Structural)]
pub enum ResolutionResult {
    UserDefined(InstanceId),
    AutoDerived,
}

/// What the resolver found at concrete types, in the order it found it.
#[derive(Debug)]
pub struct InstanceResolutionCache {
    pub items: Vec<(ClassId, Type, ResolutionResult)>,
}

/// The models of the entries of the cache.
pub open spec fn cache_models(items: Seq<(ClassId, Type, ResolutionResult)>) -> Seq<
    (ClassId, TypeModel, ResolutionResult),
> {
    Seq::new(items.len(), |i: int| (items[i].0, items[i].1@, items[i].2))
}

impl View for InstanceResolutionCache {
    type V = Seq<(ClassId, TypeModel, ResolutionResult)>;

    open spec fn view(&self) -> Seq<(ClassId, TypeModel, ResolutionResult)> {
        cache_models(self.items@)
    }
}

impl InstanceResolutionCache {
    /// A cache that has recorded nothing: its list of entries is empty.
    pub fn new() -> (r: InstanceResolutionCache)
        ensures
            r.items@.len() == 0,
            r@ == Seq::<(ClassId, TypeModel, ResolutionResult)>::empty(),
    {
        let r = InstanceResolutionCache { items: Vec::new() };
        assert(r@ =~= Seq::<(ClassId, TypeModel, ResolutionResult)>::empty());
        r
    }

    /// Records how `class_id` was resolved at `ty`.
    pub fn add(&mut self, class_id: ClassId, ty: Type, result: ResolutionResult)
        ensures
            final(self)@ == old(self)@.push((class_id, ty@, result)),
    {
        self.items.push((class_id, ty, result));
        assert(self@ =~= old(self)@.push((class_id, ty@, result)));
    }
}

/// The instance resolver: the instances in the order they were added, each
/// filed under its class and the base type of its head; the derived
/// instances, which are referred to by position; and the cache.
#[derive(Debug)]
pub struct InstanceResolver {
    pub instance_map: Vec<InstanceEntry>,
    pub auto_derived_instances: Vec<AutoDerivedInstance>,
    pub cache: InstanceResolutionCache,
}

/// The mathematical model of an instance as it is filed: its class, the
/// base type it is filed under, its head and place, where it has them, and
/// how a class is resolved where it is the instance chosen.
pub ghost struct InstanceModel {
    pub class_id: ClassId,
    pub base_type: BaseType,
    pub head: Option<TypeModel>,
    pub place: Option<LocationId>,
    pub resolution: ResolutionResult,
}

/// What a resolution has found so far: the substitutions that constrain
/// variables further, what was resolved at concrete types, and the index
/// of the next fresh variable.
pub ghost struct Resolution {
    pub found: Seq<SubstitutionModel>,
    pub cache: Seq<(ClassId, TypeModel, ResolutionResult)>,
    pub next: nat,
}

impl InstanceInfo {
    /// The head type of the instance.
    pub open spec fn head(&self, derived: Seq<AutoDerivedInstance>) -> Option<TypeModel> {
        match self {
            InstanceInfo::UserDefined(ty, _, _) => Some(ty@),
            InstanceInfo::AutoDerived(index) => if *index < derived.len() {
                Some(derived[*index as int].ty@)
            } else {
                None
            },
        }
    }

    /// The place of the instance.
    pub open spec fn place(&self, derived: Seq<AutoDerivedInstance>) -> Option<LocationId> {
        match self {
            InstanceInfo::UserDefined(_, _, location) => Some(*location),
            InstanceInfo::AutoDerived(index) => if *index < derived.len() {
                Some(derived[*index as int].location)
            } else {
                None
            },
        }
    }

    /// How a class is resolved where this instance is the one chosen.
    pub open spec fn resolution(&self) -> ResolutionResult {
        match self {
            InstanceInfo::UserDefined(_, id, _) => ResolutionResult::UserDefined(*id),
            InstanceInfo::AutoDerived(_) => ResolutionResult::AutoDerived,
        }
    }

    /// The head type of the instance, if it is a user's or a derived one
    /// that the resolver holds.
    pub fn get_type<'a>(&'a self, instance_resolver: &'a InstanceResolver) -> (r: Option<&'a Type>)
        ensures
            match r {
                Some(ty) => self.head(instance_resolver.auto_derived_instances@) == Some(ty@),
                None => self.head(instance_resolver.auto_derived_instances@).is_none(),
            },
    {
        match self {
            InstanceInfo::UserDefined(ty, _, _) => Some(ty),
            InstanceInfo::AutoDerived(index) => {
                if *index < instance_resolver.auto_derived_instances.len() {
                    Some(&instance_resolver.auto_derived_instances[*index].ty)
                } else {
                    None
                }
            },
        }
    }

    /// The place of the instance.
    pub fn get_location(&self, instance_resolver: &InstanceResolver) -> (r: Option<LocationId>)
        ensures
            r == self.place(instance_resolver.auto_derived_instances@),
    {
        match self {
            InstanceInfo::UserDefined(_, _, id) => Some(*id),
            InstanceInfo::AutoDerived(index) => {
                if *index < instance_resolver.auto_derived_instances.len() {
                    Some(instance_resolver.auto_derived_instances[*index].location)
                } else {
                    None
                }
            },
        }
    }
}

/// The models of the instances of `entries`, in order.
pub open spec fn instance_models(entries: Seq<InstanceEntry>, derived: Seq<AutoDerivedInstance>) -> Seq<
    InstanceModel,
> {
    Seq::new(
        entries.len(),
        |i: int|
            InstanceModel {
                class_id: entries[i].class_id,
                base_type: entries[i].base_type,
                head: entries[i].info.head(derived),
                place: entries[i].info.place(derived),
                resolution: entries[i].info.resolution(),
            },
    )
}

/// The first instance at or behind position `from` that is filed under
/// `class_id` and the base type of `ty` and whose head unifies with `ty`:
/// its position, the substitution that unifies the two, and the index of the
/// next fresh variable after the unification.
pub open spec fn find_instance(
    instances: Seq<InstanceModel>,
    ty: TypeModel,
    class_id: ClassId,
    next: nat,
    from: int,
) -> Option<(int, SubstitutionModel, nat)>
    decreases instances.len() - from,
{
    if from < 0 || from >= instances.len() {
        None
    } else {
        let entry = instances[from];
        if entry.class_id == class_id && entry.base_type == ty.base_type() && entry.head.is_some() {
            match unify(empty_substitution(), next, ty, entry.head.unwrap()) {
                Ok((sub, n)) => Some((from, sub, n)),
                Err(_) => find_instance(instances, ty, class_id, next, from + 1),
            }
        } else {
            find_instance(instances, ty, class_id, next, from + 1)
        }
    }
}

/// Whether `ty` is an instance of the class, within `depth` levels of
/// obligations, and what the resolution has found after it. A variable
/// that carries the class is an instance; one that does not is unified
/// with a fresh variable that carries it besides its own constraints, and
/// the substitution is added to what was found. Another type is an
/// instance where an instance of the class fits it and every obligation
/// that the fit leaves open holds; what fits a concrete type is recorded.
pub open spec fn instance_check(
    instances: Seq<InstanceModel>,
    class_id: ClassId,
    ty: TypeModel,
    state: Resolution,
    depth: nat,
) -> (bool, Resolution)
    decreases depth, 0nat, 0nat,
{
    match ty {
        TypeModel::Var(_, constraints) => {
            if constraints.contains(class_id) {
                (true, state)
            } else if state.next >= usize::MAX {
                (false, state)
            } else {
                let wanted = TypeModel::Var(state.next as usize, constraints.push(class_id));
                match unify(empty_substitution(), state.next + 1, wanted, ty) {
                    Ok((sub, n)) => (
                        true,
                        Resolution { found: state.found.push(sub), next: n, ..state },
                    ),
                    Err(_) => (false, Resolution { next: state.next + 1, ..state }),
                }
            }
        },
        _ => {
            if depth == 0 {
                (false, state)
            } else {
                match find_instance(instances, ty, class_id, state.next, 0) {
                    None => (false, state),
                    Some((position, sub, n)) => obligations_check(
                        instances,
                        sub.constraints,
                        0,
                        Resolution {
                            cache: if ty.is_concrete() {
                                state.cache.push((class_id, ty, instances[position].resolution))
                            } else {
                                state.cache
                            },
                            next: n,
                            ..state
                        },
                        (depth - 1) as nat,
                    ),
                }
            }
        },
    }
}

/// Whether every obligation from position `from` on holds.
pub open spec fn obligations_check(
    instances: Seq<InstanceModel>,
    constraints: Seq<ConstraintModel>,
    from: int,
    state: Resolution,
    depth: nat,
) -> (bool, Resolution)
    decreases depth, 1nat, constraints.len() - from,
{
    if from < 0 || from >= constraints.len() {
        (true, state)
    } else {
        let (ok, state1) = instance_check(
            instances,
            constraints[from].class_id,
            constraints[from].ty,
            state,
            depth,
        );
        if ok {
            obligations_check(instances, constraints, from + 1, state1, depth)
        } else {
            (false, state1)
        }
    }
}

/// The substitutions of a list of unifiers.
pub open spec fn unifier_models(items: Seq<(Unifier, LocationId)>) -> Seq<SubstitutionModel> {
    Seq::new(items.len(), |i: int| items[i].0.substitution@)
}

/// The places kept with a list of unifiers.
pub open spec fn unifier_places(items: Seq<(Unifier, LocationId)>) -> Seq<LocationId> {
    Seq::new(items.len(), |i: int| items[i].1)
}

/// Whether `after` is `before` with entries behind it that all are the
/// place `place`.
pub open spec fn places_added(before: Seq<LocationId>, after: Seq<LocationId>, place: LocationId) -> bool {
    &&& before.len() <= after.len()
    &&& forall|k: int| 0 <= k < before.len() ==> #[trigger] after[k] == before[k]
    &&& forall|k: int| before.len() <= k < after.len() ==> #[trigger] after[k] == place
}

impl InstanceResolver {
    /// The instances that the resolver holds, in the order they were filed.
    pub open spec fn instances(&self) -> Seq<InstanceModel> {
        instance_models(self.instance_map@, self.auto_derived_instances@)
    }

    /// What a resolution has found at its start, when it adds to
    /// `unifiers` and draws fresh variables from `generator`.
    pub open spec fn resolution(
        &self,
        unifiers: Seq<(Unifier, LocationId)>,
        generator: &TypeVarGenerator,
    ) -> Resolution {
        Resolution {
            found: unifier_models(unifiers),
            cache: self.cache@,
            next: generator.next_index(),
        }
    }

    /// A resolver without instances, filed or derived, that has resolved
    /// nothing yet.
    pub fn new() -> (r: InstanceResolver)
        ensures
            r.instance_map@.len() == 0,
            r.auto_derived_instances@.len() == 0,
            r.cache.items@.len() == 0,
            r.instances() == Seq::<InstanceModel>::empty(),
            r.cache@ == Seq::<(ClassId, TypeModel, ResolutionResult)>::empty(),
    {
        let r = InstanceResolver {
            instance_map: Vec::new(),
            auto_derived_instances: Vec::new(),
            cache: InstanceResolutionCache::new(),
        };
        assert(r.instances() =~= Seq::<InstanceModel>::empty());
        r
    }

    /// The derived instance at position `index`.
    pub fn get_auto_derived_instance(&self, index: usize) -> (r: &AutoDerivedInstance)
        requires
            index < self.auto_derived_instances@.len(),
        ensures
            *r == self.auto_derived_instances@[index as int],
    {
        &self.auto_derived_instances[index]
    }

    /// Puts `instance` in the place of the derived instance at position `index`.
    pub fn update_auto_derived_instance(&mut self, index: usize, instance: AutoDerivedInstance)
        requires
            index < old(self).auto_derived_instances@.len(),
        ensures
            final(self).auto_derived_instances@ == old(self).auto_derived_instances@.update(
                index as int,
                instance,
            ),
            final(self).instance_map == old(self).instance_map,
            final(self).cache == old(self).cache,
    {
        self.auto_derived_instances.set(index, instance);
    }

    /// Files an instance that the user wrote, behind those filed before.
    pub fn add_user_defined(
        &mut self,
        class_id: ClassId,
        instance_ty: Type,
        instance_id: InstanceId,
        location_id: LocationId,
    )
        ensures
            final(self).instances() == old(self).instances().push(
                InstanceModel {
                    class_id,
                    base_type: instance_ty@.base_type(),
                    head: Some(instance_ty@),
                    place: Some(location_id),
                    resolution: ResolutionResult::UserDefined(instance_id),
                },
            ),
            final(self).auto_derived_instances == old(self).auto_derived_instances,
            final(self).cache == old(self).cache,
    {
        let base_type = instance_ty.get_base_type();
        self.instance_map.push(
            InstanceEntry {
                class_id,
                base_type,
                info: InstanceInfo::UserDefined(instance_ty, instance_id, location_id),
            },
        );
        assert(self.instances() =~= old(self).instances().push(
            InstanceModel {
                class_id,
                base_type: instance_ty@.base_type(),
                head: Some(instance_ty@),
                place: Some(location_id),
                resolution: ResolutionResult::UserDefined(instance_id),
            },
        ));
    }

    /// Files a derived instance, behind those filed before, and returns its
    /// position among the derived instances.
    pub fn add_auto_derived(&mut self, class_id: ClassId, instance_ty: Type, location_id: LocationId) -> (index:
        usize)
        ensures
            index == old(self).auto_derived_instances@.len(),
            final(self).auto_derived_instances@ == old(self).auto_derived_instances@.push(
                AutoDerivedInstance { ty: instance_ty, location: location_id },
            ),
            final(self).instance_map@ == old(self).instance_map@.push(
                InstanceEntry {
                    class_id,
                    base_type: instance_ty@.base_type(),
                    info: InstanceInfo::AutoDerived(index),
                },
            ),
            final(self).cache == old(self).cache,
    {
        let base_type = instance_ty.get_base_type();
        let index = self.auto_derived_instances.len();
        self.auto_derived_instances.push(
            AutoDerivedInstance { ty: instance_ty, location: location_id },
        );
        self.instance_map.push(
            InstanceEntry { class_id, base_type, info: InstanceInfo::AutoDerived(index) },
        );
        index
    }

    /// The first instance of the class, among those filed under the base
    /// type of `ty`, whose head unifies with `ty`, with the unifier that
    /// holds the fit. Each candidate is tried with fresh variables from
    /// where `generator` stands.
    #[verifier::loop_isolation(false)]
    pub fn find(&self, ty: &Type, class_id: ClassId, generator: &TypeVarGenerator) -> (r: Option<
        (usize, Unifier),
    >)
        ensures
            match find_instance(self.instances(), ty@, class_id, generator.next_index(), 0) {
                Some((position, sub, next)) => r.is_some() && r.unwrap().0 == position
                    && r.unwrap().0 < self.instance_map@.len() && r.unwrap().1.substitution@ == sub
                    && r.unwrap().1.type_var_generator.next_index() == next,
                None => r.is_none(),
            },
    {
        let base_type = ty.get_base_type();
        let mut i: usize = 0;
        while i < self.instance_map.len()
            invariant
                i <= self.instance_map.len(),
                find_instance(self.instances(), ty@, class_id, generator.next_index(), 0)
                    == find_instance(
                    self.instances(),
                    ty@,
                    class_id,
                    generator.next_index(),
                    i as int,
                ),
            decreases self.instance_map.len() - i,
        {
            let entry = &self.instance_map[i];
            if entry.class_id.id == class_id.id && entry.base_type == base_type {
                match entry.info.get_type(self) {
                    Some(head) => {
                        let mut unifier = Unifier::new(generator.copy());
                        if unifier.unify(ty, head).is_ok() {
                            return Some((i, unifier));
                        }
                    },
                    None => {},
                }
            }
            i = i + 1;
        }
        None
    }

    /// Whether an instance of the class fits `ty`: the unifier that holds
    /// the fit of the first one that does. Where `ty` is concrete, what was
    /// found is recorded in the cache.
    pub fn has_instance(&mut self, ty: &Type, class_id: ClassId, generator: &TypeVarGenerator) -> (r:
        Option<Unifier>)
        ensures
            final(self).instance_map == old(self).instance_map,
            final(self).auto_derived_instances == old(self).auto_derived_instances,
            match find_instance(old(self).instances(), ty@, class_id, generator.next_index(), 0) {
                Some((position, sub, next)) => r.is_some() && r.unwrap().substitution@ == sub
                    && r.unwrap().type_var_generator.next_index() == next && final(self).cache@ == (
                if ty@.is_concrete() {
                    old(self).cache@.push(
                        (class_id, ty@, old(self).instances()[position].resolution),
                    )
                } else {
                    old(self).cache@
                }),
                None => r.is_none() && final(self).cache@ == old(self).cache@,
            },
    {
        match self.find(ty, class_id, generator) {
            Some((position, unifier)) => {
                if ty.is_concrete_type() {
                    let result = match &self.instance_map[position].info {
                        InstanceInfo::UserDefined(_, instance_id, _) => ResolutionResult::UserDefined(
                            *instance_id,
                        ),
                        InstanceInfo::AutoDerived(_) => ResolutionResult::AutoDerived,
                    };
                    self.cache.add(class_id, ty.copy(), result);
                }
                Some(unifier)
            },
            None => None,
        }
    }

    /// Whether `ty` is an instance of the class, within `depth` levels of
    /// obligations. The unifiers that constrain variables further are added
    /// to `unifiers`, each with `location_id`; what fits a concrete type
    /// is recorded in the cache.
    #[verifier::loop_isolation(false)]
    pub fn check_instance(
        &mut self,
        class_id: ClassId,
        ty: &Type,
        location_id: LocationId,
        unifiers: &mut Vec<(Unifier, LocationId)>,
        generator: &mut TypeVarGenerator,
        depth: usize,
    ) -> (r: bool)
        ensures
            final(self).instance_map == old(self).instance_map,
            final(self).auto_derived_instances == old(self).auto_derived_instances,
            (r, final(self).resolution(final(unifiers)@, final(generator))) == instance_check(
                old(self).instances(),
                class_id,
                ty@,
                old(self).resolution(old(unifiers)@, old(generator)),
                depth as nat,
            ),
            places_added(
                unifier_places(old(unifiers)@),
                unifier_places(final(unifiers)@),
                location_id,
            ),
        decreases depth, 0nat, 0nat,
    {
        if let Type::Var(_, constraints) = ty {
            if contains_class_id(constraints, class_id) {
                return true;
            }
            let index = match generator.get_new_index() {
                Some(index) => index,
                None => {
                    return false;
                },
            };
            let mut new_constraints = copy_class_ids(constraints);
            new_constraints.push(class_id);
            let new_type = Type::Var(index, new_constraints);
            let mut unifier = Unifier::new(generator.copy());
            let r = unifier.unify(&new_type, ty);
            if r.is_ok() {
                let ghost before = unifier_models(unifiers@);
                let ghost sub = unifier.substitution@;
                *generator = unifier.type_var_generator.copy();
                unifiers.push((unifier, location_id));
                assert(unifier_models(unifiers@) =~= before.push(sub));
                return true;
            }
            return false;
        }
        if depth == 0 {
            return false;
        }
        match self.has_instance(ty, class_id, generator) {
            Some(unifier) => {
                *generator = unifier.type_var_generator.copy();
                let constraints = unifier.get_constraints();
                let ghost instances = old(self).instances();
                let ghost models = constraint_models(constraints@);
                let ghost start = self.resolution(unifiers@, generator);
                let mut i: usize = 0;
                while i < constraints.len()
                    invariant
                        i <= constraints.len(),
                        self.instance_map == old(self).instance_map,
                        self.auto_derived_instances == old(self).auto_derived_instances,
                        models == constraint_models(constraints@),
                        places_added(
                            unifier_places(old(unifiers)@),
                            unifier_places(unifiers@),
                            location_id,
                        ),
                        obligations_check(instances, models, 0, start, (depth - 1) as nat)
                            == obligations_check(
                            instances,
                            models,
                            i as int,
                            self.resolution(unifiers@, generator),
                            (depth - 1) as nat,
                        ),
                    decreases constraints.len() - i,
                {
                    if !self.check_instance(
                        constraints[i].class_id,
                        &constraints[i].ty,
                        location_id,
                        unifiers,
                        generator,
                        depth - 1,
                    ) {
                        return false;
                    }
                    i = i + 1;
                }
                true
            },
            None => false,
        }
    }
}

/// The position of the first instance at or behind `from` that is filed
/// under `class_id` and has a variable for its head.
pub open spec fn first_generic(instances: Seq<InstanceModel>, class_id: ClassId, from: int) -> Option<int>
    decreases instances.len() - from,
{
    if from < 0 || from >= instances.len() {
        None
    } else if instances[from].class_id == class_id && instances[from].base_type
        == BaseType::Generic {
        Some(from)
    } else {
        first_generic(instances, class_id, from + 1)
    }
}

/// The name of a class; the empty name for a class that the table lacks.
pub open spec fn class_name(classes: ItemContainer<Class>, id: ClassId) -> Seq<char> {
    if classes.contains(id.id) {
        classes.item(id.id).name@
    } else {
        Seq::empty()
    }
}

/// The name of a class.
pub fn name_of_class(classes: &ItemContainer<Class>, id: ClassId) -> (r: String)
    ensures
        r@ == class_name(*classes, id),
{
    match classes.get(id.id) {
        Some(class) => class.name.clone(),
        None => String::new(),
    }
}

/// `errors`, then a conflict of the instance at `position` with each
/// instance behind it, from `from` on, that is filed under the same class
/// and base type and whose head unifies with its head.
pub open spec fn pair_conflicts(
    classes: ItemContainer<Class>,
    instances: Seq<InstanceModel>,
    position: int,
    from: int,
    errors: Seq<TypecheckErrorModel>,
    next: nat,
) -> Seq<TypecheckErrorModel>
    decreases instances.len() - from,
{
    if from < 0 || position < 0 || position >= instances.len() || from >= instances.len() {
        errors
    } else {
        let first = instances[position];
        let second = instances[from];
        if second.class_id == first.class_id && second.base_type == first.base_type
            && first.head.is_some() && second.head.is_some() && first.place.is_some()
            && second.place.is_some() && unify(
            empty_substitution(),
            next,
            first.head.unwrap(),
            second.head.unwrap(),
        ).is_ok() {
            pair_conflicts(
                classes,
                instances,
                position,
                from + 1,
                errors.push(
                    TypecheckErrorModel::ConflictingInstances(
                        class_name(classes, first.class_id),
                        first.place.unwrap(),
                        second.place.unwrap(),
                    ),
                ),
                next,
            )
        } else {
            pair_conflicts(classes, instances, position, from + 1, errors, next)
        }
    }
}

/// `errors`, then the conflicts of the instances from position `from` on.
/// Where the class of an instance has an instance with a variable for its
/// head, every instance of the class at another place conflicts with the
/// first such instance. Otherwise an instance conflicts with each instance
/// behind it, of its class and base type, whose head unifies with its head.
pub open spec fn conflicts(
    classes: ItemContainer<Class>,
    instances: Seq<InstanceModel>,
    from: int,
    errors: Seq<TypecheckErrorModel>,
    next: nat,
) -> Seq<TypecheckErrorModel>
    decreases instances.len() - from,
{
    if from < 0 || from >= instances.len() {
        errors
    } else {
        let entry = instances[from];
        match first_generic(instances, entry.class_id, 0) {
            Some(generic) => {
                let generic_place = instances[generic].place;
                let place = entry.place;
                if generic_place.is_some() && place.is_some() && generic_place != place {
                    conflicts(
                        classes,
                        instances,
                        from + 1,
                        errors.push(
                            TypecheckErrorModel::ConflictingInstances(
                                class_name(classes, entry.class_id),
                                generic_place.unwrap(),
                                place.unwrap(),
                            ),
                        ),
                        next,
                    )
                } else {
                    conflicts(classes, instances, from + 1, errors, next)
                }
            },
            None => conflicts(
                classes,
                instances,
                from + 1,
                pair_conflicts(classes, instances, from, from + 1, errors, next),
                next,
            ),
        }
    }
}

/// `errors`, then a missing instance for each class, from position `from`
/// among those that the class of an instance requires, that the head of
/// the instance is no instance of; and what the resolution has found.
pub open spec fn missing_dependencies(
    classes: ItemContainer<Class>,
    instances: Seq<InstanceModel>,
    head: TypeModel,
    place: LocationId,
    required: Seq<ClassId>,
    from: int,
    errors: Seq<TypecheckErrorModel>,
    state: Resolution,
    depth: nat,
) -> (Seq<TypecheckErrorModel>, Resolution)
    decreases required.len() - from,
{
    if from < 0 || from >= required.len() {
        (errors, state)
    } else {
        let (ok, state1) = instance_check(
            instances,
            required[from],
            head,
            Resolution { found: Seq::empty(), ..state },
            depth,
        );
        missing_dependencies(
            classes,
            instances,
            head,
            place,
            required,
            from + 1,
            if ok {
                errors
            } else {
                errors.push(
                    TypecheckErrorModel::MissingInstance(
                        class_name(classes, required[from]),
                        head,
                        place,
                    ),
                )
            },
            Resolution { found: Seq::empty(), ..state1 },
            depth,
        )
    }
}

/// `errors`, then the missing instances of the instances from position
/// `from` on: the head of an instance must be an instance of each class
/// that its class requires.
pub open spec fn dependency_errors(
    instances: Seq<InstanceModel>,
    program: Declarations,
    from: int,
    errors: Seq<TypecheckErrorModel>,
    state: Resolution,
    depth: nat,
) -> (Seq<TypecheckErrorModel>, Resolution)
    decreases instances.len() - from,
{
    if from < 0 || from >= instances.len() {
        (errors, state)
    } else {
        let entry = instances[from];
        if program.classes.contains(entry.class_id.id) && entry.head.is_some()
            && entry.place.is_some() {
            let (errors1, state1) = missing_dependencies(
                program.classes,
                instances,
                entry.head.unwrap(),
                entry.place.unwrap(),
                program.classes.item(entry.class_id.id).constraints@,
                0,
                errors,
                state,
                depth,
            );
            dependency_errors(instances, program, from + 1, errors1, state1, depth)
        } else {
            dependency_errors(instances, program, from + 1, errors, state, depth)
        }
    }
}

impl InstanceResolver {
    /// The position of the first instance of the class that has a variable
    /// for its head.
    #[verifier::loop_isolation(false)]
    fn find_generic(&self, class_id: ClassId) -> (r: Option<usize>)
        ensures
            match r {
                Some(i) => first_generic(self.instances(), class_id, 0) == Some(i as int) && i
                    < self.instance_map@.len(),
                None => first_generic(self.instances(), class_id, 0).is_none(),
            },
    {
        let mut i: usize = 0;
        while i < self.instance_map.len()
            invariant
                i <= self.instance_map.len(),
                first_generic(self.instances(), class_id, 0) == first_generic(
                    self.instances(),
                    class_id,
                    i as int,
                ),
            decreases self.instance_map.len() - i,
        {
            if self.instance_map[i].class_id.id == class_id.id && self.instance_map[i].base_type
                == BaseType::Generic {
                return Some(i);
            }
            i = i + 1;
        }
        None
    }

    /// Reports the instances that conflict: two instances of one class
    /// whose heads unify.
    #[verifier::loop_isolation(false)]
    pub fn check_conflicts(
        &self,
        classes: &ItemContainer<Class>,
        errors: &mut Vec<TypecheckError>,
        generator: &TypeVarGenerator,
    )
        ensures
            error_models(final(errors)@) == conflicts(
                *classes,
                self.instances(),
                0,
                error_models(old(errors)@),
                generator.next_index(),
            ),
    {
        let ghost next = generator.next_index();
        let ghost instances = self.instances();
        let mut i: usize = 0;
        while i < self.instance_map.len()
            invariant
                i <= self.instance_map.len(),
                conflicts(*classes, instances, 0, error_models(old(errors)@), next) == conflicts(
                    *classes,
                    instances,
                    i as int,
                    error_models(errors@),
                    next,
                ),
            decreases self.instance_map.len() - i,
        {
            let entry = &self.instance_map[i];
            match self.find_generic(entry.class_id) {
                Some(generic) => {
                    let generic_place = self.instance_map[generic].info.get_location(self);
                    let place = entry.info.get_location(self);
                    match (generic_place, place) {
                        (Some(g), Some(p)) => {
                            if g.id != p.id {
                                push_error(
                                    errors,
                                    TypecheckError::ConflictingInstances(
                                        name_of_class(classes, entry.class_id),
                                        g,
                                        p,
                                    ),
                                );
                            }
                        },
                        _ => {},
                    }
                },
                None => {
                    let ghost errors0 = error_models(errors@);
                    let mut j: usize = i + 1;
                    while j < self.instance_map.len()
                        invariant
                            i < j <= self.instance_map.len(),
                            pair_conflicts(*classes, instances, i as int, i + 1, errors0, next)
                                == pair_conflicts(
                                *classes,
                                instances,
                                i as int,
                                j as int,
                                error_models(errors@),
                                next,
                            ),
                        decreases self.instance_map.len() - j,
                    {
                        let second = &self.instance_map[j];
                        if second.class_id.id == entry.class_id.id && second.base_type
                            == entry.base_type {
                            match (
                                entry.info.get_type(self),
                                second.info.get_type(self),
                                entry.info.get_location(self),
                                second.info.get_location(self),
                            ) {
                                (
                                    Some(first_head),
                                    Some(second_head),
                                    Some(first_place),
                                    Some(second_place),
                                ) => {
                                    let mut unifier = Unifier::new(generator.copy());
                                    if unifier.unify(first_head, second_head).is_ok() {
                                        push_error(
                                            errors,
                                            TypecheckError::ConflictingInstances(
                                                name_of_class(classes, entry.class_id),
                                                first_place,
                                                second_place,
                                            ),
                                        );
                                    }
                                },
                                _ => {},
                            }
                        }
                        j = j + 1;
                    }
                },
            }
            i = i + 1;
        }
    }

    /// Reports, for each instance, the classes that its class requires and
    /// that its head is no instance of.
    #[verifier::loop_isolation(false)]
    pub fn check_instance_dependencies(
        &mut self,
        program: &Program,
        errors: &mut Vec<TypecheckError>,
        generator: &mut TypeVarGenerator,
        depth: usize,
    )
        ensures
            final(self).instance_map == old(self).instance_map,
            final(self).auto_derived_instances == old(self).auto_derived_instances,
            (error_models(final(errors)@), final(self).resolution(Seq::empty(), final(generator)))
                == dependency_errors(
                old(self).instances(),
                program.declarations(),
                0,
                error_models(old(errors)@),
                old(self).resolution(Seq::empty(), old(generator)),
                depth as nat,
            ),
    {
        let ghost instances = old(self).instances();
        let ghost start = dependency_errors(
            instances,
            program.declarations(),
            0,
            error_models(old(errors)@),
            old(self).resolution(Seq::empty(), old(generator)),
            depth as nat,
        );
        let ghost none = Seq::<(Unifier, LocationId)>::empty();
        assert(unifier_models(none) =~= Seq::<SubstitutionModel>::empty());
        let mut i: usize = 0;
        while i < self.instance_map.len()
            invariant
                i <= self.instance_map.len(),
                self.instance_map == old(self).instance_map,
                self.auto_derived_instances == old(self).auto_derived_instances,
                unifier_models(none) == Seq::<SubstitutionModel>::empty(),
                start == dependency_errors(
                    instances,
                    program.declarations(),
                    i as int,
                    error_models(errors@),
                    self.resolution(none, generator),
                    depth as nat,
                ),
            decreases self.instance_map.len() - i,
        {
            let class_id = self.instance_map[i].class_id;
            let head = match self.instance_map[i].info.get_type(self) {
                Some(ty) => Some(ty.copy()),
                None => None,
            };
            let place = self.instance_map[i].info.get_location(self);
            match (program.classes.get(class_id.id), head, place) {
                (Some(class), Some(head), Some(place)) => {
                    let ghost inner_start = missing_dependencies(
                        program.classes,
                        instances,
                        head@,
                        place,
                        class.constraints@,
                        0,
                        error_models(errors@),
                        self.resolution(none, generator),
                        depth as nat,
                    );
                    let mut k: usize = 0;
                    while k < class.constraints.len()
                        invariant
                            k <= class.constraints.len(),
                            self.instance_map == old(self).instance_map,
                            self.auto_derived_instances == old(self).auto_derived_instances,
                            unifier_models(none) == Seq::<SubstitutionModel>::empty(),
                            inner_start == missing_dependencies(
                                program.classes,
                                instances,
                                head@,
                                place,
                                class.constraints@,
                                k as int,
                                error_models(errors@),
                                self.resolution(none, generator),
                                depth as nat,
                            ),
                        decreases class.constraints.len() - k,
                    {
                        let mut unifiers: Vec<(Unifier, LocationId)> = Vec::new();
                        assert(unifier_models(unifiers@) =~= Seq::<SubstitutionModel>::empty());
                        let dep = class.constraints[k];
                        if !self.check_instance(dep, &head, place, &mut unifiers, generator, depth) {
                            push_error(
                                errors,
                                TypecheckError::MissingInstance(
                                    name_of_class(&program.classes, dep),
                                    head.copy(),
                                    place,
                                ),
                            );
                        }
                        k = k + 1;
                    }
                },
                _ => {},
            }
            i = i + 1;
        }
    }
}

/// The instance that fits a concrete type is determined by the instances:
/// wherever the fresh variables stand, the same instance is found, with
/// the same substitution.
pub proof fn lemma_concrete_selection_is_determined(
    instances: Seq<InstanceModel>,
    ty: TypeModel,
    class_id: ClassId,
    first_next: nat,
    second_next: nat,
    from: int,
)
    requires
        ty.is_concrete(),
    ensures
        match (
            find_instance(instances, ty, class_id, first_next, from),
            find_instance(instances, ty, class_id, second_next, from),
        ) {
            (Some((p1, s1, _)), Some((p2, s2, _))) => p1 == p2 && s1 == s2,
            (None, None) => true,
            _ => false,
        },
    decreases instances.len() - from,
{
    if 0 <= from < instances.len() {
        let entry = instances[from];
        if entry.class_id == class_id && entry.base_type == ty.base_type() && entry.head.is_some() {
            crate::ir::unifier_laws::lemma_unify_concrete_is_determined(
                ty,
                entry.head.unwrap(),
                first_next,
                second_next,
            );
        }
        lemma_concrete_selection_is_determined(
            instances,
            ty,
            class_id,
            first_next,
            second_next,
            from + 1,
        );
    }
}

} // verus!
