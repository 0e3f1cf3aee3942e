use siko::ir::class::Class;
use siko::ir::class::ClassId;
use siko::util::ItemContainer;
use siko::ir::class::InstanceId;
use siko::ir::data::TypeDefId;
use siko::ir::type_var_generator::TypeVarGenerator;
use siko::ir::types::Type;
use siko::location_info::LocationId;
use siko::typechecker::error::TypecheckError;
use siko::typechecker::instance_resolver::InstanceResolver;
use siko::typechecker::instance_resolver::ResolutionResult;
use siko::ir::unifier::Unifier;

const DEPTH: usize = 50;

fn named(name: &str, id: usize, args: Vec<Type>) -> Type {
    Type::Named(name.to_string(), TypeDefId { id }, args)
}

fn int_type() -> Type {
    named("Int", 0, Vec::new())
}

fn bool_type() -> Type {
    named("Bool", 1, Vec::new())
}

fn list_of(item: Type) -> Type {
    named("List", 2, vec![item])
}

fn generator_from(next: usize) -> TypeVarGenerator {
    let mut generator = TypeVarGenerator::new();
    for _ in 0..next {
        generator.get_new_index();
    }
    generator
}

const SHOW: ClassId = ClassId { id: 0 };

const EQ: ClassId = ClassId { id: 1 };

/// `Show Int`, `Show (List a)` for every `a` with `Show a`, and `Eq Int`.
fn resolver() -> InstanceResolver {
    let mut resolver = InstanceResolver::new();
    resolver.add_user_defined(SHOW, int_type(), InstanceId { id: 0 }, LocationId { id: 1 });
    resolver.add_user_defined(
        SHOW,
        list_of(Type::Var(0, vec![SHOW])),
        InstanceId { id: 1 },
        LocationId { id: 2 },
    );
    resolver.add_user_defined(EQ, int_type(), InstanceId { id: 2 }, LocationId { id: 3 });
    resolver
}

fn classes() -> ItemContainer<Class> {
    let mut classes = ItemContainer::new();
    for name in ["Show", "Eq"] {
        let id = classes.get_id();
        classes.add_item(
            id,
            Class {
                id: ClassId { id },
                name: name.to_string(),
                type_arg: 0,
                members: Vec::new(),
                constraints: Vec::new(),
                location_id: LocationId { id: 0 },
            },
        );
    }
    classes
}

fn check(resolver: &mut InstanceResolver, class_id: ClassId, ty: &Type) -> bool {
    let mut unifiers: Vec<(Unifier, LocationId)> = Vec::new();
    let mut generator = generator_from(10);
    resolver.check_instance(class_id, ty, LocationId { id: 9 }, &mut unifiers, &mut generator, DEPTH)
}

#[test]
fn instance_at_a_concrete_type_is_found() {
    let mut r = resolver();
    assert!(check(&mut r, SHOW, &int_type()));
    assert!(check(&mut r, EQ, &int_type()));
}

#[test]
fn missing_instance_is_not_found() {
    let mut r = resolver();
    assert!(!check(&mut r, SHOW, &bool_type()));
    assert!(!check(&mut r, EQ, &list_of(int_type())));
}

#[test]
fn instance_with_a_dependency_needs_the_dependency() {
    let mut r = resolver();
    assert!(check(&mut r, SHOW, &list_of(int_type())));
    assert!(check(&mut r, SHOW, &list_of(list_of(int_type()))));
    assert!(!check(&mut r, SHOW, &list_of(bool_type())));
}

#[test]
fn concrete_selection_is_the_same_every_time() {
    let mut r = resolver();
    let ty = list_of(int_type());
    let generator = generator_from(10);
    let first = r.find(&ty, SHOW, &generator).unwrap();
    let second = r.find(&ty, SHOW, &generator).unwrap();
    let other = r.find(&ty, SHOW, &generator_from(40)).unwrap();
    assert_eq!(first.0, 1);
    assert_eq!(second.0, 1);
    assert_eq!(other.0, 1);
    assert!(r.has_instance(&ty, SHOW, &generator).is_some());
    assert!(r.has_instance(&ty, SHOW, &generator).is_some());
    assert!(r.has_instance(&bool_type(), SHOW, &generator).is_none());
}

#[test]
fn resolved_concrete_types_are_remembered() {
    let mut r = resolver();
    assert!(check(&mut r, SHOW, &int_type()));
    assert_eq!(r.cache.items.len(), 1);
    assert_eq!(r.cache.items[0].0, SHOW);
    assert!(r.cache.items[0].1.equals(&int_type()));
    assert_eq!(r.cache.items[0].2, ResolutionResult::UserDefined(InstanceId { id: 0 }));
}

#[test]
fn overlapping_heads_are_a_conflict() {
    let mut r = resolver();
    r.add_user_defined(
        SHOW,
        list_of(int_type()),
        InstanceId { id: 3 },
        LocationId { id: 4 },
    );
    let mut errors = Vec::new();
    r.check_conflicts(&classes(), &mut errors, &generator_from(10));
    assert_eq!(errors.len(), 1);
    match &errors[0] {
        TypecheckError::ConflictingInstances(class, first, second) => {
            assert_eq!(class, "Show");
            assert_eq!(*first, LocationId { id: 2 });
            assert_eq!(*second, LocationId { id: 4 });
        },
        other => panic!("unexpected error {:?}", other),
    }
}

#[test]
fn separate_heads_are_no_conflict() {
    let r = resolver();
    let mut errors = Vec::new();
    r.check_conflicts(&classes(), &mut errors, &generator_from(10));
    assert!(errors.is_empty());
}

#[test]
fn unifier_of_a_variable_is_kept_with_the_place_of_the_check() {
    let mut r = resolver();
    let mut unifiers: Vec<(Unifier, LocationId)> = Vec::new();
    let mut generator = generator_from(10);
    let open = Type::Var(3, vec![EQ]);
    assert!(r.check_instance(SHOW, &open, LocationId { id: 77 }, &mut unifiers, &mut generator, DEPTH));
    assert_eq!(unifiers.len(), 1);
    assert_eq!(unifiers[0].1, LocationId { id: 77 });
    let bound = unifiers[0].0.apply(&open);
    assert!(bound.equals(&Type::Var(11, vec![SHOW, EQ])));
    let has = Type::Var(4, vec![SHOW]);
    assert!(r.check_instance(SHOW, &has, LocationId { id: 78 }, &mut unifiers, &mut generator, DEPTH));
    assert_eq!(unifiers.len(), 1);
}
